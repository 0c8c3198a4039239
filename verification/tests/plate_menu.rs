use cce_terminal::keys::ElementState;
use cce_terminal::launch::{command_from_args, spawn_plan};
use cce_terminal::plate_menu::{
    dispatch_plate_menu, handle_plate_menu_input, open_plate_menu, set_zoom, MenuEffect, MenuInput,
    MenuRow, PlateMenuAction, Tab, TabId,
};
use cce_terminal::session::MouseButton;

fn labels(rows: &[MenuRow]) -> Vec<&str> {
    rows.iter().map(|row| row.label.as_str()).collect()
}

fn actions(rows: &[MenuRow]) -> Vec<PlateMenuAction> {
    rows.iter().map(|row| row.action).collect()
}

fn tab(id: u64, label: &str) -> Tab {
    Tab { id: TabId(id), label: label.to_string() }
}

fn strings(parts: &[&str]) -> Vec<String> {
    parts.iter().map(|part| part.to_string()).collect()
}

#[test]
fn the_smallest_menu() {
    let rows = open_plate_menu(&None, 0, &vec![tab(7, "sh")], 0);
    assert_eq!(
        labels(&rows),
        vec![
            "Paste",
            "-",
            "Larger Text",
            "Smaller Text",
            "-",
            "Clear Scrollback",
            "Reset Terminal",
            "-",
            "● sh",
            "New Tab",
            "-",
            "New Window"
        ]
    );
    assert_eq!(
        actions(&rows),
        vec![
            PlateMenuAction::Paste,
            PlateMenuAction::Separator,
            PlateMenuAction::LargerText,
            PlateMenuAction::SmallerText,
            PlateMenuAction::Separator,
            PlateMenuAction::ClearScrollback,
            PlateMenuAction::ResetTerminal,
            PlateMenuAction::Separator,
            PlateMenuAction::ShowTab(TabId(7)),
            PlateMenuAction::NewTab,
            PlateMenuAction::Separator,
            PlateMenuAction::NewWindow
        ]
    );
}

#[test]
fn the_largest_menu() {
    let tabs = vec![tab(1, "one"), tab(2, "two"), tab(3, "three")];
    let rows = open_plate_menu(&Some("picked".to_string()), -2, &tabs, 1);
    assert_eq!(labels(&rows)[..2], ["Copy", "Paste"]);
    assert_eq!(labels(&rows)[5..6], ["Reset Text Size"]);
    assert_eq!(labels(&rows)[10..15], ["○ one", "● two", "○ three", "New Tab", "Close Tab"]);
    assert_eq!(actions(&rows)[0], PlateMenuAction::Copy);
    assert_eq!(actions(&rows)[5], PlateMenuAction::ResetTextSize);
    assert_eq!(actions(&rows)[12], PlateMenuAction::ShowTab(TabId(3)));
    assert_eq!(actions(&rows)[14], PlateMenuAction::CloseTab);
    assert_eq!(rows.len(), 17);
    // Rows drawn as a line do nothing, and only they.
    for row in &rows {
        assert_eq!(row.label == "-", dispatch_plate_menu(row.action, 0) == MenuEffect::Nothing);
    }
}

#[test]
fn an_empty_selection_is_nothing_to_copy() {
    let rows = open_plate_menu(&Some(String::new()), 0, &Vec::new(), 0);
    assert_eq!(rows[0].action, PlateMenuAction::Paste);
}

#[test]
fn menu_clicks() {
    let open = vec![PlateMenuAction::Copy, PlateMenuAction::Paste];
    let press = |button, hit| {
        handle_plate_menu_input(true, &open, button, ElementState::Pressed, hit)
    };
    assert_eq!(press(MouseButton::Left, Some(1)), MenuInput::Close(Some(PlateMenuAction::Paste)));
    assert_eq!(press(MouseButton::Left, Some(2)), MenuInput::Close(None));
    assert_eq!(press(MouseButton::Left, None), MenuInput::Close(None));
    assert_eq!(press(MouseButton::Right, Some(0)), MenuInput::Close(None));
    assert_eq!(
        handle_plate_menu_input(true, &open, MouseButton::Left, ElementState::Released, Some(0)),
        MenuInput::Swallow
    );
    assert_eq!(
        handle_plate_menu_input(false, &open, MouseButton::Left, ElementState::Pressed, Some(0)),
        MenuInput::NotOurs
    );
    assert_eq!(
        handle_plate_menu_input(
            true,
            &Vec::new(),
            MouseButton::Left,
            ElementState::Pressed,
            Some(0)
        ),
        MenuInput::NotOurs
    );
}

#[test]
fn every_row_has_its_effect() {
    for (action, effect) in [
        (PlateMenuAction::Copy, MenuEffect::CopySelection),
        (PlateMenuAction::Paste, MenuEffect::PasteClipboard),
        (PlateMenuAction::LargerText, MenuEffect::Zoom(4)),
        (PlateMenuAction::SmallerText, MenuEffect::Zoom(2)),
        (PlateMenuAction::ResetTextSize, MenuEffect::Zoom(0)),
        (PlateMenuAction::ClearScrollback, MenuEffect::ClearHistory),
        (PlateMenuAction::ResetTerminal, MenuEffect::ResetTerminal),
        (PlateMenuAction::ShowTab(TabId(5)), MenuEffect::ShowTab(TabId(5))),
        (PlateMenuAction::NewTab, MenuEffect::NewTab),
        (PlateMenuAction::CloseTab, MenuEffect::CloseTab),
        (PlateMenuAction::NewWindow, MenuEffect::NewWindow),
        (PlateMenuAction::Separator, MenuEffect::Nothing),
    ] {
        assert_eq!(dispatch_plate_menu(action, 3), effect);
    }
}

#[test]
fn zoom_is_bounded() {
    assert_eq!(set_zoom(-9), -8);
    assert_eq!(set_zoom(25), 24);
    assert_eq!(set_zoom(-3), -3);
    assert_eq!(dispatch_plate_menu(PlateMenuAction::LargerText, 24), MenuEffect::Zoom(24));
    assert_eq!(dispatch_plate_menu(PlateMenuAction::SmallerText, -8), MenuEffect::Zoom(-8));
}

#[test]
fn commands_come_from_the_arguments() {
    assert_eq!(command_from_args(&strings(&[])), None);
    assert_eq!(command_from_args(&strings(&["-e"])), None);
    assert_eq!(
        command_from_args(&strings(&["-e", "vi", "-e"])),
        Some(strings(&["vi", "-e"]))
    );
    assert_eq!(
        command_from_args(&strings(&["sh", "-c", "ls"])),
        Some(strings(&["sh", "-c", "ls"]))
    );
}

#[test]
fn the_pty_runs_the_command_or_a_shell() {
    let command = Some(strings(&["sh", "-c", "ls"]));
    assert_eq!(
        spawn_plan(&command, Some("/bin/zsh".to_string())),
        ("sh".to_string(), strings(&["-c", "ls"]))
    );
    assert_eq!(
        spawn_plan(&None, Some("/bin/zsh".to_string())),
        ("/bin/zsh".to_string(), strings(&[]))
    );
    assert_eq!(spawn_plan(&None, None), ("/bin/sh".to_string(), strings(&[])));
}
