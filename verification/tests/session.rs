use alacritty_terminal::term::color::Colors;
use alacritty_terminal::term::TermMode as Modes;
use alacritty_terminal::vte::ansi::Rgb as VteRgb;
use cce_terminal::colors::{Palette, Rgb};
use cce_terminal::keys::{ElementState, Key, KeyEvent, NamedKey};
use cce_terminal::mode::TermMode;
use cce_terminal::session::{
    finish_selection, grid_dims, grid_line, non_empty, scroll_step, scrollback_lines, Autoscroll,
    Click, Clipboard, Effect, HeldButtons, KeyAction, MouseButton, MouseOutcome, PointerMove,
    SelectionEnd, SelectionType, Shortcuts, TermEvent, TerminalApp, WheelRoute,
    MULTI_CLICK_WINDOW,
};

const NO_SHORTCUT: Shortcuts =
    Shortcuts { copy: false, paste: false, scroll_up: false, scroll_down: false };

fn app() -> TerminalApp {
    TerminalApp::new(80, 24)
}

fn mode(modes: Modes) -> TermMode {
    TermMode::from_bits(modes.bits())
}

fn click(at: u64, line: i32, column: usize) -> Click {
    Click { at, line, column }
}

fn key(logical_key: Key, state: ElementState) -> KeyEvent {
    KeyEvent { state, logical_key, text: None, repeat: false, ctrl: false, shift: false, alt: false }
}

fn button(
    app: &mut TerminalApp,
    button: MouseButton,
    state: ElementState,
    modes: Modes,
) -> MouseOutcome {
    app.handle_mouse_input(button, state, (4, 2), click(0, 2, 4), false, &mode(modes))
}

fn press_at(app: &mut TerminalApp, click: Click) -> (SelectionType, bool) {
    match app.handle_mouse_input(
        MouseButton::Left,
        ElementState::Pressed,
        (click.column, 0),
        click,
        false,
        &TermMode::empty(),
    ) {
        MouseOutcome::StartSelection { ty, rebuild } => (ty, rebuild),
        other => panic!("{other:?}"),
    }
}

fn release(app: &mut TerminalApp) {
    button(app, MouseButton::Left, ElementState::Released, Modes::empty());
}

#[test]
fn grids_have_bounds() {
    assert_eq!(grid_dims(80, 24), (80, 24));
    assert_eq!(grid_dims(-5, 0), (2, 1));
    assert_eq!(grid_dims(i64::MAX, 70_000), (65535, 65535));
}

#[test]
fn histories_have_bounds() {
    assert_eq!(scrollback_lines(5000), 5000);
    assert_eq!(scrollback_lines(-1), 0);
    assert_eq!(scrollback_lines(200_001), 200_000);
}

#[test]
fn lines_count_from_the_live_screen() {
    assert_eq!(grid_line(3, 0), 3);
    assert_eq!(grid_line(3, 10), -7);
    assert_eq!(scroll_step(5, 5), None);
    assert_eq!(scroll_step(2, 5), Some(-3));
}

#[test]
fn empty_text_is_no_text() {
    assert_eq!(non_empty(None), None);
    assert_eq!(non_empty(Some(String::new())), None);
    assert_eq!(non_empty(Some("x".to_string())), Some("x".to_string()));
}

#[test]
fn titles() {
    let mut a = app();
    let table = Colors::default();
    let p = Palette::default();
    assert_eq!(a.window_title(), "cce-terminal");
    assert!(a.update(TermEvent::Title("vi".to_string()), &table, &p).1);
    assert_eq!(a.window_title(), "vi");
    assert!(a.update(TermEvent::ResetTitle, &table, &p).1);
    assert_eq!(a.window_title(), "cce-terminal");
}

#[test]
fn terminal_events_have_their_effects() {
    let mut a = app();
    let mut table = Colors::default();
    table[1] = Some(VteRgb { r: 7, g: 8, b: 9 });
    let p = Palette::default();
    let mut ask = |event: TermEvent| a.update(event, &table, &p);
    assert!(matches!(ask(TermEvent::PtyOutput), (Effect::Nothing, true)));
    assert!(matches!(ask(TermEvent::PtyClosed), (Effect::Exit, false)));
    assert!(matches!(ask(TermEvent::Bell), (Effect::Flash, true)));
    assert!(matches!(ask(TermEvent::Other), (Effect::Nothing, false)));
    match ask(TermEvent::PtyWrite("é\x1b".to_string())) {
        (Effect::Write(bytes), false) => assert_eq!(bytes, "é\x1b".as_bytes()),
        other => panic!("{other:?}"),
    }
    match ask(TermEvent::ColorRequest(1)) {
        (Effect::ReplyColor(rgb), false) => assert_eq!(rgb, Rgb { r: 7, g: 8, b: 9 }),
        other => panic!("{other:?}"),
    }
    match ask(TermEvent::ColorRequest(196)) {
        (Effect::ReplyColor(rgb), false) => assert_eq!(rgb, Rgb { r: 255, g: 0, b: 0 }),
        other => panic!("{other:?}"),
    }
    assert!(matches!(
        ask(TermEvent::TextAreaSizeRequest),
        (Effect::ReplySize { rows: 24, cols: 80 }, false)
    ));
    match ask(TermEvent::ClipboardStore(Clipboard::Selection, "t".to_string())) {
        (Effect::Store(Clipboard::Selection, text), false) => assert_eq!(text, "t"),
        other => panic!("{other:?}"),
    }
    assert!(matches!(
        ask(TermEvent::ClipboardLoad(Clipboard::Clipboard)),
        (Effect::Load(Clipboard::Clipboard), false)
    ));
}

#[test]
fn focus_changes_start_clean() {
    let mut a = app();
    a.shift_down = true;
    a.held.left = true;
    assert_eq!(a.handle_focus_change(true, &mode(Modes::FOCUS_IN_OUT)), (false, None));
    assert!(a.shift_down && a.held.left);
    assert_eq!(
        a.handle_focus_change(false, &mode(Modes::FOCUS_IN_OUT)),
        (true, Some(b"\x1b[O".to_vec()))
    );
    assert!(!a.shift_down && !a.held.left && !a.focused);
    assert_eq!(a.handle_focus_change(true, &TermMode::empty()), (true, None));
    assert_eq!(
        a.handle_focus_change(false, &TermMode::empty()),
        (true, None)
    );
    assert_eq!(
        a.handle_focus_change(true, &mode(Modes::FOCUS_IN_OUT)),
        (true, Some(b"\x1b[I".to_vec()))
    );
}

#[test]
fn cells_are_held_in_the_grid() {
    assert_eq!(app().viewport_cell((3, 4)), (3, 4));
    assert_eq!(app().viewport_cell((80, 1000)), (79, 23));
}

#[test]
fn modifiers_ride_on_the_code() {
    let mut a = app();
    assert_eq!(a.report_mods(), 0);
    a.alt_down = true;
    assert_eq!(a.report_mods(), 8);
    a.ctrl_down = true;
    assert_eq!(a.report_mods(), 24);
    let sgr = Modes::MOUSE_REPORT_CLICK | Modes::SGR_MOUSE;
    match button(&mut a, MouseButton::Right, ElementState::Pressed, sgr) {
        MouseOutcome::Report(bytes) => assert_eq!(bytes, b"\x1b[<26;5;3M"),
        other => panic!("{other:?}"),
    }
}

#[test]
fn motion_is_reported_by_the_cell() {
    let mut a = app();
    let sgr = mode(Modes::MOUSE_MOTION | Modes::SGR_MOUSE);
    match a.handle_pointer_move((4, 2), &sgr) {
        PointerMove::Report(bytes) => assert_eq!(bytes, b"\x1b[<35;5;3M"),
        other => panic!("{other:?}"),
    }
    assert!(matches!(a.handle_pointer_move((4, 2), &sgr), PointerMove::Nothing));
    match a.handle_pointer_move((400, 2), &sgr) {
        PointerMove::Report(bytes) => assert_eq!(bytes, b"\x1b[<35;80;3M"),
        other => panic!("{other:?}"),
    }
    // Clamped, it is still the same cell.
    assert!(matches!(a.handle_pointer_move((500, 2), &sgr), PointerMove::Nothing));
}

#[test]
fn drags_report_the_lowest_held_button() {
    let mut a = app();
    let drag = mode(Modes::MOUSE_DRAG | Modes::SGR_MOUSE);
    assert!(matches!(a.handle_pointer_move((1, 1), &drag), PointerMove::Nothing));
    a.held = HeldButtons { left: false, middle: true, right: true };
    match a.handle_pointer_move((1, 1), &drag) {
        PointerMove::Report(bytes) => assert_eq!(bytes, b"\x1b[<33;2;2M"),
        other => panic!("{other:?}"),
    }
    // Plain click reporting tells no motion.
    let clicks = mode(Modes::MOUSE_REPORT_CLICK);
    assert!(matches!(a.handle_pointer_move((2, 2), &clicks), PointerMove::Nothing));
}

#[test]
fn buttons_are_reported_and_held() {
    let mut a = app();
    let sgr = Modes::MOUSE_REPORT_CLICK | Modes::SGR_MOUSE;
    match button(&mut a, MouseButton::Middle, ElementState::Pressed, sgr) {
        MouseOutcome::Report(bytes) => assert_eq!(bytes, b"\x1b[<1;5;3M"),
        other => panic!("{other:?}"),
    }
    assert!(a.held.middle);
    assert_eq!(a.last_mouse_cell, Some((4, 2)));
    // Moving inside the pressed cell tells nothing.
    let drag = mode(Modes::MOUSE_DRAG);
    assert!(matches!(a.handle_pointer_move((4, 2), &drag), PointerMove::Nothing));
    match button(&mut a, MouseButton::Middle, ElementState::Released, sgr) {
        MouseOutcome::Report(bytes) => assert_eq!(bytes, b"\x1b[<1;5;3m"),
        other => panic!("{other:?}"),
    }
    assert!(!a.held.middle);
    assert!(matches!(
        button(&mut a, MouseButton::Other, ElementState::Pressed, sgr),
        MouseOutcome::Nothing
    ));
}

#[test]
fn shift_keeps_the_mouse_for_the_selection() {
    let mut a = app();
    let all = Modes::MOUSE_REPORT_CLICK | Modes::MOUSE_MOTION | Modes::MOUSE_DRAG;
    a.shift_down = true;
    assert!(!a.mouse_reporting(&mode(all)));
    assert!(matches!(a.handle_pointer_move((1, 1), &mode(all)), PointerMove::Nothing));
    assert!(matches!(
        button(&mut a, MouseButton::Left, ElementState::Pressed, all),
        MouseOutcome::StartSelection { ty: SelectionType::Simple, rebuild: false }
    ));
    assert_eq!(a.wheel_route(&mode(all)), WheelRoute::Scrollback);
}

#[test]
fn a_drag_stays_with_the_selection() {
    let mut a = app();
    let all = Modes::MOUSE_REPORT_CLICK | Modes::MOUSE_MOTION;
    button(&mut a, MouseButton::Left, ElementState::Pressed, Modes::empty());
    assert!(a.selecting);
    assert!(matches!(
        a.handle_pointer_move((9, 9), &mode(all)),
        PointerMove::ExtendSelection
    ));
    assert!(matches!(
        button(&mut a, MouseButton::Left, ElementState::Released, all),
        MouseOutcome::FinishSelection
    ));
    assert!(!a.selecting);
}

#[test]
fn clicks_escalate_and_wrap() {
    let mut a = app();
    let mut types = Vec::new();
    for i in 0..4 {
        types.push(press_at(&mut a, click(i * 100_000_000, 0, 5)));
        release(&mut a);
    }
    assert_eq!(
        types,
        vec![
            (SelectionType::Simple, false),
            (SelectionType::Semantic, true),
            (SelectionType::Lines, true),
            (SelectionType::Simple, false)
        ]
    );
}

#[test]
fn slow_or_distant_clicks_start_over() {
    let mut a = app();
    assert_eq!(press_at(&mut a, click(0, 0, 5)).0, SelectionType::Simple);
    assert_eq!(press_at(&mut a, click(MULTI_CLICK_WINDOW - 1, 0, 5)).0, SelectionType::Semantic);
    assert_eq!(
        press_at(&mut a, click(2 * MULTI_CLICK_WINDOW - 1, 0, 5)).0,
        SelectionType::Simple
    );
    assert_eq!(press_at(&mut a, click(2 * MULTI_CLICK_WINDOW, 0, 6)).0, SelectionType::Simple);
    assert_eq!(press_at(&mut a, click(2 * MULTI_CLICK_WINDOW, -1, 6)).0, SelectionType::Simple);
}

#[test]
fn other_buttons_without_reports() {
    let mut a = app();
    assert!(matches!(
        button(&mut a, MouseButton::Middle, ElementState::Pressed, Modes::empty()),
        MouseOutcome::PastePrimary
    ));
    assert!(matches!(
        button(&mut a, MouseButton::Middle, ElementState::Released, Modes::empty()),
        MouseOutcome::Nothing
    ));
    assert!(matches!(
        button(&mut a, MouseButton::Right, ElementState::Pressed, Modes::empty()),
        MouseOutcome::Nothing
    ));
    assert!(a.held.right && !a.held.middle);
}

#[test]
fn selections_end_in_primary_or_nowhere() {
    assert!(matches!(
        finish_selection(Some("x".to_string()), true),
        SelectionEnd::CopyPrimary(text) if text == "x"
    ));
    assert!(matches!(
        finish_selection(Some(String::new()), true),
        SelectionEnd::Drop { rebuild: true }
    ));
    assert!(matches!(finish_selection(None, false), SelectionEnd::Drop { rebuild: false }));
}

#[test]
fn wheel_motion_goes_three_ways() {
    let a = app();
    let sgr = mode(Modes::MOUSE_REPORT_CLICK | Modes::SGR_MOUSE);
    assert_eq!(a.wheel_route(&sgr), WheelRoute::Reports);
    assert_eq!(a.handle_mouse_wheel(2, (4, 2), &sgr), b"\x1b[<64;5;3M\x1b[<64;5;3M");
    assert_eq!(a.handle_mouse_wheel(-1, (4, 2), &sgr), b"\x1b[<65;5;3M");
    let alt = mode(Modes::ALT_SCREEN | Modes::ALTERNATE_SCROLL);
    assert_eq!(a.wheel_route(&alt), WheelRoute::Arrows);
    assert_eq!(a.handle_mouse_wheel(2, (4, 2), &alt), b"\x1b[A\x1b[A");
    assert_eq!(a.handle_mouse_wheel(-3, (4, 2), &alt), b"\x1b[B\x1b[B\x1b[B");
    assert_eq!(a.handle_mouse_wheel(0, (4, 2), &alt), b"");
    assert_eq!(a.wheel_route(&mode(Modes::ALT_SCREEN)), WheelRoute::Scrollback);
    assert_eq!(a.handle_mouse_wheel(5, (4, 2), &TermMode::empty()), b"");
}

#[test]
fn modifier_keys_are_followed() {
    let mut a = app();
    let none = TermMode::empty();
    for (k, read) in [
        (NamedKey::Shift, (|a| a.shift_down) as fn(&TerminalApp) -> bool),
        (NamedKey::Control, |a| a.ctrl_down),
        (NamedKey::Alt, |a| a.alt_down),
    ] {
        let down = key(Key::Named(k), ElementState::Pressed);
        assert!(matches!(
            a.handle_key_input(&down, &NO_SHORTCUT, true, 3, &none),
            (KeyAction::Nothing, false)
        ));
        assert!(read(&a));
        let up = key(Key::Named(k), ElementState::Released);
        a.handle_key_input(&up, &NO_SHORTCUT, true, 3, &none);
        assert!(!read(&a));
    }
}

#[test]
fn shortcuts_go_before_the_terminal() {
    let mut a = app();
    let none = TermMode::empty();
    let c = key(Key::Character("c".to_string()), ElementState::Pressed);
    let mut all = Shortcuts { copy: true, paste: true, scroll_up: true, scroll_down: true };
    assert!(matches!(
        a.handle_key_input(&c, &all, false, 0, &none),
        (KeyAction::CopySelection, false)
    ));
    all.copy = false;
    assert!(matches!(
        a.handle_key_input(&c, &all, false, 0, &none),
        (KeyAction::PasteClipboard, false)
    ));
    all.paste = false;
    assert!(matches!(a.handle_key_input(&c, &all, false, 0, &none), (KeyAction::PageUp, true)));
    all.scroll_up = false;
    assert!(matches!(a.handle_key_input(&c, &all, false, 0, &none), (KeyAction::PageDown, true)));
    // A release is nobody's.
    let up = key(Key::Character("c".to_string()), ElementState::Released);
    assert!(matches!(a.handle_key_input(&up, &all, false, 0, &none), (KeyAction::Nothing, false)));
}

#[test]
fn typing_clears_the_selection_and_snaps_down() {
    let mut a = app();
    let up = key(Key::Named(NamedKey::ArrowUp), ElementState::Pressed);
    let app_cursor = mode(Modes::APP_CURSOR);
    match a.handle_key_input(&up, &NO_SHORTCUT, true, 0, &app_cursor) {
        (KeyAction::Send { bytes, clear_selection: true, to_bottom: false }, true) => {
            assert_eq!(bytes, b"\x1bOA")
        }
        other => panic!("{other:?}"),
    }
    match a.handle_key_input(&up, &NO_SHORTCUT, false, 9, &TermMode::empty()) {
        (KeyAction::Send { bytes, clear_selection: false, to_bottom: true }, true) => {
            assert_eq!(bytes, b"\x1b[A")
        }
        other => panic!("{other:?}"),
    }
    assert!(matches!(
        a.handle_key_input(&up, &NO_SHORTCUT, false, 0, &TermMode::empty()),
        (KeyAction::Send { clear_selection: false, to_bottom: false, .. }, false)
    ));
}

#[test]
fn pastes_follow_the_mode() {
    let a = app();
    assert_eq!(a.paste("a\nb", 0, &TermMode::empty()), (b"a\rb".to_vec(), false));
    assert_eq!(
        a.paste("a\nb", 4, &mode(Modes::BRACKETED_PASTE)),
        (b"\x1b[200~a\nb\x1b[201~".to_vec(), true)
    );
}

#[test]
fn resizes_are_told_once() {
    let mut a = app();
    assert!(!a.handle_resize(80, 24));
    assert!(a.handle_resize(100, 24));
    assert_eq!((a.cols, a.rows), (100, 24));
    assert!(a.handle_resize(-3, -3));
    assert_eq!((a.cols, a.rows), (2, 1));
    assert_eq!(a.reload(false, 80, 24), (false, false));
    assert_eq!(a.reload(true, 80, 24), (true, true));
    assert_eq!(a.reload(true, 80, 24), (true, false));
}

#[test]
fn drags_past_the_edge_scroll() {
    let mut a = app();
    assert_eq!(a.autoscroll(true, 5), Autoscroll::Idle);
    a.selecting = true;
    assert_eq!(a.autoscroll(false, 5), Autoscroll::Reset);
    assert_eq!(a.autoscroll(true, 0), Autoscroll::Gather);
    assert_eq!(a.autoscroll(true, -2), Autoscroll::Scroll(-2));
}
