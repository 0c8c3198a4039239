//! The menu of the window's corner control: its rows, what a click on it
//! picks, and what a picked row does.

use vstd::prelude::*;
use vstd::string::*;

use crate::keys::ElementState;
use crate::session::MouseButton;

verus! {

/// Names a tab for as long as it lives.
#[derive(Clone, Copy, Debug, PartialEq, Eq, Structural)]
pub struct TabId(pub u64);

/// What the corner menu can do to the terminal.
#[derive(Clone, Copy, Debug, PartialEq, Eq, Structural)]
pub enum PlateMenuAction {
    /// The selection goes to the regular clipboard.
    Copy,
    /// The regular clipboard goes to the pty.
    Paste,
    /// Text zoom, one point per step over the configured size.
    LargerText,
    SmallerText,
    /// Back to the configured size.
    ResetTextSize,
    /// Drop the scrollback history; the viewport stays.
    ClearScrollback,
    /// Full reset: modes, colors, tab stops, the alternate screen.
    ResetTerminal,
    /// Bring the named tab to the front. By id, not index: a tab whose shell
    /// exits while the menu is open shifts the indices under it.
    ShowTab(TabId),
    /// A fresh shell in the active tab's directory, shown.
    NewTab,
    /// Close the active tab.
    CloseTab,
    /// Another window, detached.
    NewWindow,
    /// An inert row.
    Separator,
}

/// A tab as the menu lists it.
#[derive(Clone, Debug)]
pub struct Tab {
    pub id: TabId,
    pub label: String,
}

/// A row of the menu: what it says and what it does.
#[derive(Clone, Debug)]
pub struct MenuRow {
    pub label: String,
    pub action: PlateMenuAction,
}

/// The model of a row.
pub struct RowView {
    pub label: Seq<char>,
    pub action: PlateMenuAction,
}

impl View for MenuRow {
    type V = RowView;

    open spec fn view(&self) -> RowView {
        RowView { label: self.label@, action: self.action }
    }
}

pub open spec fn row_views(rows: Seq<MenuRow>) -> Seq<RowView> {
    rows.map_values(|row: MenuRow| row@)
}

pub open spec fn entry(label: Seq<char>, action: PlateMenuAction) -> RowView {
    RowView { label, action }
}

pub open spec fn separator() -> RowView {
    entry("-"@, PlateMenuAction::Separator)
}

/// The row of a tab: a filled mark on the shown one, a hollow one on others.
pub open spec fn tab_row(tab: Tab, shown: bool) -> RowView {
    entry(
        (if shown {
            "● "@
        } else {
            "○ "@
        }) + tab.label@,
        PlateMenuAction::ShowTab(tab.id),
    )
}

/// One row, or none.
pub open spec fn optional(there: bool, row: RowView) -> Seq<RowView> {
    if there {
        seq![row]
    } else {
        Seq::empty()
    }
}

/// The menu: the clipboard pair, text zoom, resets, the tabs, a new window.
/// Copy is there with something to copy, the size reset while zoomed, closing
/// with more than one tab.
pub open spec fn menu(can_copy: bool, zoomed: bool, tabs: Seq<Tab>, active: int) -> Seq<RowView> {
    optional(can_copy, entry("Copy"@, PlateMenuAction::Copy)) + seq![
        entry("Paste"@, PlateMenuAction::Paste),
        separator(),
        entry("Larger Text"@, PlateMenuAction::LargerText),
        entry("Smaller Text"@, PlateMenuAction::SmallerText),
    ] + optional(zoomed, entry("Reset Text Size"@, PlateMenuAction::ResetTextSize)) + seq![
        separator(),
        entry("Clear Scrollback"@, PlateMenuAction::ClearScrollback),
        entry("Reset Terminal"@, PlateMenuAction::ResetTerminal),
        separator(),
    ] + Seq::new(tabs.len(), |i: int| tab_row(tabs[i], i == active)) + seq![
        entry("New Tab"@, PlateMenuAction::NewTab),
    ] + optional(tabs.len() > 1, entry("Close Tab"@, PlateMenuAction::CloseTab)) + seq![
        separator(),
        entry("New Window"@, PlateMenuAction::NewWindow),
    ]
}

/// The menu for a selection, a text zoom and the tabs.
pub open spec fn menu_for(
    selection: Option<String>,
    zoom_steps: int,
    tabs: Seq<Tab>,
    active: int,
) -> Seq<RowView> {
    menu(selection matches Some(text) && text@.len() > 0, zoom_steps != 0, tabs, active)
}

fn row(rows: &mut Vec<MenuRow>, label: &str, action: PlateMenuAction)
    ensures
        row_views(final(rows)@) == row_views(old(rows)@).push(entry(label@, action)),
{
    rows.push(MenuRow { label: label.to_string(), action });
    assert(row_views(rows@) =~= row_views(old(rows)@).push(entry(label@, action)));
}

/// The rows of the corner menu.
pub fn open_plate_menu(
    selection: &Option<String>,
    zoom_steps: i32,
    tabs: &Vec<Tab>,
    active: usize,
) -> (rows: Vec<MenuRow>)
    ensures
        row_views(rows@) == menu_for(*selection, zoom_steps as int, tabs@, active as int),
{
    let mut rows: Vec<MenuRow> = Vec::new();
    let can_copy = match selection {
        Some(text) => !text.as_str().is_empty(),
        None => false,
    };
    if can_copy {
        row(&mut rows, "Copy", PlateMenuAction::Copy);
    }
    row(&mut rows, "Paste", PlateMenuAction::Paste);
    row(&mut rows, "-", PlateMenuAction::Separator);
    row(&mut rows, "Larger Text", PlateMenuAction::LargerText);
    row(&mut rows, "Smaller Text", PlateMenuAction::SmallerText);
    if zoom_steps != 0 {
        row(&mut rows, "Reset Text Size", PlateMenuAction::ResetTextSize);
    }
    row(&mut rows, "-", PlateMenuAction::Separator);
    row(&mut rows, "Clear Scrollback", PlateMenuAction::ClearScrollback);
    row(&mut rows, "Reset Terminal", PlateMenuAction::ResetTerminal);
    row(&mut rows, "-", PlateMenuAction::Separator);
    let ghost head = row_views(rows@);
    let ghost marks = Seq::new(tabs@.len(), |i: int| tab_row(tabs@[i], i == active));
    let mut i: usize = 0;
    assert(head + marks.take(0) =~= head);
    while i < tabs.len()
        invariant
            i <= tabs@.len(),
            marks == Seq::new(tabs@.len(), |i: int| tab_row(tabs@[i], i == active)),
            row_views(rows@) == head + marks.take(i as int),
        decreases tabs@.len() - i,
    {
        let mut label = if i == active {
            "● ".to_string()
        } else {
            "○ ".to_string()
        };
        label.append(tabs[i].label.as_str());
        row(&mut rows, label.as_str(), PlateMenuAction::ShowTab(tabs[i].id));
        i = i + 1;
        assert(row_views(rows@) =~= head + marks.take(i as int));
    }
    assert(marks.take(i as int) =~= marks);
    row(&mut rows, "New Tab", PlateMenuAction::NewTab);
    if tabs.len() > 1 {
        row(&mut rows, "Close Tab", PlateMenuAction::CloseTab);
    }
    row(&mut rows, "-", PlateMenuAction::Separator);
    row(&mut rows, "New Window", PlateMenuAction::NewWindow);
    assert(row_views(rows@) =~= menu(can_copy, zoom_steps != 0, tabs@, active as int));
    rows
}

/// What a button event comes to while the menu may be open.
#[derive(Clone, Copy, Debug, PartialEq, Eq, Structural)]
pub enum MenuInput {
    /// The menu is closed: the event is not its own.
    NotOurs,
    /// Swallowed: the press that opened the menu must not complete as a click
    /// on the grid underneath.
    Swallow,
    /// The menu closes, and the action under the pointer is done.
    Close(Option<PlateMenuAction>),
}

/// What a button event comes to at a menu of these actions.
pub open spec fn menu_input(
    visible: bool,
    actions: Seq<PlateMenuAction>,
    button: MouseButton,
    state: ElementState,
    hit: Option<usize>,
) -> MenuInput {
    if !visible || actions.len() == 0 {
        MenuInput::NotOurs
    } else if state != ElementState::Pressed {
        MenuInput::Swallow
    } else if button == MouseButton::Left && hit is Some && hit->0 < actions.len() {
        MenuInput::Close(Some(actions[hit->0 as int]))
    } else {
        MenuInput::Close(None)
    }
}

/// Routes a button event; `hit` is the row under the pointer, where it is over
/// the menu. A left press on a row picks it, any other press dismisses the
/// menu, and releases are swallowed.
pub fn handle_plate_menu_input(
    visible: bool,
    actions: &Vec<PlateMenuAction>,
    button: MouseButton,
    state: ElementState,
    hit: Option<usize>,
) -> (out: MenuInput)
    ensures
        out == menu_input(visible, actions@, button, state, hit),
{
    if !visible || actions.len() == 0 {
        return MenuInput::NotOurs;
    }
    if state != ElementState::Pressed {
        return MenuInput::Swallow;
    }
    match hit {
        Some(index) => {
            if button == MouseButton::Left && index < actions.len() {
                MenuInput::Close(Some(actions[index]))
            } else {
                MenuInput::Close(None)
            }
        },
        None => MenuInput::Close(None),
    }
}

/// The bounds of text zoom, in steps.
pub const ZOOM_MIN: i32 = -8;

pub const ZOOM_MAX: i32 = 24;

/// What a picked row does.
#[derive(Clone, Copy, Debug, PartialEq, Eq, Structural)]
pub enum MenuEffect {
    Nothing,
    CopySelection,
    PasteClipboard,
    /// Text zoom goes to this step, and the grid is derived anew.
    Zoom(i32),
    /// The view drops to the live screen, then the history goes.
    ClearHistory,
    ResetTerminal,
    ShowTab(TabId),
    NewTab,
    CloseTab,
    NewWindow,
}

/// Text zoom held between its bounds.
pub open spec fn zoomed_to(steps: int) -> int {
    crate::session::clamped(steps, ZOOM_MIN as int, ZOOM_MAX as int)
}

/// A text zoom, held between its bounds.
pub fn set_zoom(steps: i32) -> (zoom: i32)
    ensures
        zoom == zoomed_to(steps as int),
{
    if steps < ZOOM_MIN {
        ZOOM_MIN
    } else if steps > ZOOM_MAX {
        ZOOM_MAX
    } else {
        steps
    }
}

/// What a row does while the text is zoomed by `zoom_steps`.
pub open spec fn effect_of(action: PlateMenuAction, zoom_steps: int) -> MenuEffect {
    match action {
        PlateMenuAction::Copy => MenuEffect::CopySelection,
        PlateMenuAction::Paste => MenuEffect::PasteClipboard,
        PlateMenuAction::LargerText => MenuEffect::Zoom(zoomed_to(zoom_steps + 1) as i32),
        PlateMenuAction::SmallerText => MenuEffect::Zoom(zoomed_to(zoom_steps - 1) as i32),
        PlateMenuAction::ResetTextSize => MenuEffect::Zoom(0),
        PlateMenuAction::ClearScrollback => MenuEffect::ClearHistory,
        PlateMenuAction::ResetTerminal => MenuEffect::ResetTerminal,
        PlateMenuAction::ShowTab(id) => MenuEffect::ShowTab(id),
        PlateMenuAction::NewTab => MenuEffect::NewTab,
        PlateMenuAction::CloseTab => MenuEffect::CloseTab,
        PlateMenuAction::NewWindow => MenuEffect::NewWindow,
        PlateMenuAction::Separator => MenuEffect::Nothing,
    }
}

/// What a picked row does.
pub fn dispatch_plate_menu(action: PlateMenuAction, zoom_steps: i32) -> (effect: MenuEffect)
    requires
        ZOOM_MIN <= zoom_steps <= ZOOM_MAX,
    ensures
        effect == effect_of(action, zoom_steps as int),
{
    match action {
        PlateMenuAction::Copy => MenuEffect::CopySelection,
        PlateMenuAction::Paste => MenuEffect::PasteClipboard,
        PlateMenuAction::LargerText => MenuEffect::Zoom(set_zoom(zoom_steps + 1)),
        PlateMenuAction::SmallerText => MenuEffect::Zoom(set_zoom(zoom_steps - 1)),
        PlateMenuAction::ResetTextSize => MenuEffect::Zoom(set_zoom(0)),
        PlateMenuAction::ClearScrollback => MenuEffect::ClearHistory,
        PlateMenuAction::ResetTerminal => MenuEffect::ResetTerminal,
        PlateMenuAction::ShowTab(id) => MenuEffect::ShowTab(id),
        PlateMenuAction::NewTab => MenuEffect::NewTab,
        PlateMenuAction::CloseTab => MenuEffect::CloseTab,
        PlateMenuAction::NewWindow => MenuEffect::NewWindow,
        PlateMenuAction::Separator => MenuEffect::Nothing,
    }
}

/// Where the tabs begin in the menu.
pub open spec fn first_tab_row(can_copy: bool, zoomed: bool) -> int {
    8 + (if can_copy {
        1int
    } else {
        0
    }) + (if zoomed {
        1int
    } else {
        0
    })
}

/// Every tab is listed once, in order, the shown one alone under a filled
/// mark, and no other row shows a tab.
pub proof fn tabs_are_a_radio_group(can_copy: bool, zoomed: bool, tabs: Seq<Tab>, active: int)
    ensures
        ({
            let rows = menu(can_copy, zoomed, tabs, active);
            let start = first_tab_row(can_copy, zoomed);
            &&& "● "@ != "○ "@
            &&& forall|i: int|
                #![trigger tabs[i]]
                0 <= i < tabs.len() ==> rows[start + i] == tab_row(tabs[i], i == active)
            &&& forall|k: int|
                #![trigger rows[k]]
                0 <= k < rows.len() && !(start <= k < start + tabs.len())
                    ==> rows[k].action !is ShowTab
        }),
{
    reveal_strlit("● ");
    reveal_strlit("○ ");
    assert("● "@[0] != "○ "@[0]);
}

/// The rows drawn as a line are the ones that do nothing.
pub proof fn lines_do_nothing(
    can_copy: bool,
    zoomed: bool,
    tabs: Seq<Tab>,
    active: int,
    zoom_steps: int,
    k: int,
)
    requires
        0 <= k < menu(can_copy, zoomed, tabs, active).len(),
    ensures
        ({
            let row = menu(can_copy, zoomed, tabs, active)[k];
            row.label == "-"@ <==> effect_of(row.action, zoom_steps) == MenuEffect::Nothing
        }),
{
    reveal_strlit("-");
    reveal_strlit("● ");
    reveal_strlit("○ ");
    reveal_strlit("Copy");
    reveal_strlit("Paste");
    reveal_strlit("Larger Text");
    reveal_strlit("Smaller Text");
    reveal_strlit("Reset Text Size");
    reveal_strlit("Clear Scrollback");
    reveal_strlit("Reset Terminal");
    reveal_strlit("New Tab");
    reveal_strlit("Close Tab");
    reveal_strlit("New Window");
    let row = menu(can_copy, zoomed, tabs, active)[k];
    assert(row.label == "-"@ ==> row.label.len() == 1);
}

/// The text size goes up and down again to where it was, short of the bounds.
pub proof fn zoom_steps_cancel(zoom: int)
    requires
        ZOOM_MIN <= zoom < ZOOM_MAX,
    ensures
        effect_of(PlateMenuAction::LargerText, zoom) == MenuEffect::Zoom((zoom + 1) as i32),
        effect_of(PlateMenuAction::SmallerText, zoom + 1) == MenuEffect::Zoom(zoom as i32),
{
}

/// The zoom never leaves its bounds.
pub proof fn zoom_stays_in_bounds(action: PlateMenuAction, zoom: int)
    ensures
        effect_of(action, zoom) matches MenuEffect::Zoom(steps) ==> ZOOM_MIN <= steps <= ZOOM_MAX,
{
}

/// Rows come with their reason and no other: Copy with text to copy, the size
/// reset at any zoom but none, closing with two tabs or more, under their
/// labels; each of these stands in one place of the menu that is there without
/// it.
pub proof fn rows_come_with_their_reason(
    selection: Option<String>,
    zoom_steps: int,
    tabs: Seq<Tab>,
    active: int,
)
    ensures
        ({
            let rows = menu_for(selection, zoom_steps, tabs, active);
            let plain = menu_for(None, 0, tabs, active);
            let copy: int = if selection is Some && selection->0@.len() > 0 {
                1
            } else {
                0
            };
            let reset: int = if zoom_steps != 0 {
                1
            } else {
                0
            };
            let close: int = if tabs.len() > 1 {
                1
            } else {
                0
            };
            let n = tabs.len() as int;
            &&& plain.len() == 11 + n + close
            &&& rows.len() == plain.len() + copy + reset
            &&& copy == 1 ==> rows[0].label == "Copy"@ && rows[0].action == PlateMenuAction::Copy
            &&& reset == 1 ==> rows[copy + 4].label == "Reset Text Size"@ && rows[copy + 4].action
                == PlateMenuAction::ResetTextSize
            &&& close == 1 ==> plain[9 + n].label == "Close Tab"@ && plain[9 + n].action
                == PlateMenuAction::CloseTab
            &&& forall|k: int| 0 <= k < 4 ==> rows[k + copy] == #[trigger] plain[k]
            &&& forall|k: int|
                4 <= k < plain.len() ==> rows[k + copy + reset] == #[trigger] plain[k]
            &&& forall|k: int|
                #![trigger plain[k]]
                0 <= k < plain.len() ==> plain[k].action != PlateMenuAction::Copy && plain[k].action
                    != PlateMenuAction::ResetTextSize && (plain[k].action
                    == PlateMenuAction::CloseTab ==> close == 1)
        }),
{
}

/// The rows that every menu has, under their labels: pasting first, then the
/// text size, then the resets, then the tabs and a new one, and a new window
/// last, with lines between these groups.
pub proof fn every_menu_has_its_rows(tabs: Seq<Tab>, active: int)
    ensures
        ({
            let rows = menu_for(None, 0, tabs, active);
            let n = tabs.len() as int;
            let last = rows.len() - 1;
            &&& rows[0] == entry("Paste"@, PlateMenuAction::Paste)
            &&& rows[1] == entry("-"@, PlateMenuAction::Separator)
            &&& rows[2] == entry("Larger Text"@, PlateMenuAction::LargerText)
            &&& rows[3] == entry("Smaller Text"@, PlateMenuAction::SmallerText)
            &&& rows[4] == entry("-"@, PlateMenuAction::Separator)
            &&& rows[5] == entry("Clear Scrollback"@, PlateMenuAction::ClearScrollback)
            &&& rows[6] == entry("Reset Terminal"@, PlateMenuAction::ResetTerminal)
            &&& rows[7] == entry("-"@, PlateMenuAction::Separator)
            &&& rows[8 + n] == entry("New Tab"@, PlateMenuAction::NewTab)
            &&& rows[last - 1] == entry("-"@, PlateMenuAction::Separator)
            &&& rows[last] == entry("New Window"@, PlateMenuAction::NewWindow)
            &&& forall|i: int|
                #![trigger tabs[i]]
                0 <= i < n ==> {
                    &&& rows[8 + i].action == PlateMenuAction::ShowTab(tabs[i].id)
                    &&& rows[8 + i].label == (if i == active {
                        "● "@
                    } else {
                        "○ "@
                    }) + tabs[i].label@
                }
        }),
{
}

/// The menu takes every button event while it is open and none while it is
/// not. Only a left press on a row picks, and it picks that row; every press
/// closes, and no release does anything.
pub proof fn clicks_pick_their_row(
    visible: bool,
    actions: Seq<PlateMenuAction>,
    button: MouseButton,
    state: ElementState,
    hit: Option<usize>,
)
    ensures
        ({
            let out = menu_input(visible, actions, button, state, hit);
            let down = state == ElementState::Pressed;
            &&& out is NotOurs <==> !visible || actions.len() == 0
            &&& out is Close ==> down
            &&& visible && actions.len() > 0 && down ==> out is Close
            &&& out matches MenuInput::Close(Some(action)) ==> {
                &&& button == MouseButton::Left
                &&& hit is Some && hit->0 < actions.len() && actions[hit->0 as int] == action
            }
            &&& out is Close && button == MouseButton::Left && hit is Some && hit->0 < actions.len()
                ==> out->Close_0 is Some
        }),
{
}

/// What a row does: larger and smaller text go a step up and down between -8
/// and 24, the reset goes to the configured size, and no other row touches the
/// text size; each of the others does its own thing at any zoom.
pub proof fn rows_do_what_they_say(action: PlateMenuAction, zoom: int, other: int)
    requires
        -8 <= zoom <= 24,
        -8 <= other <= 24,
    ensures
        effect_of(action, zoom) is Zoom <==> action == PlateMenuAction::LargerText || action
            == PlateMenuAction::SmallerText || action == PlateMenuAction::ResetTextSize,
        effect_of(PlateMenuAction::LargerText, zoom) == MenuEffect::Zoom(
            if zoom < 24 {
                (zoom + 1) as i32
            } else {
                24
            },
        ),
        effect_of(PlateMenuAction::SmallerText, zoom) == MenuEffect::Zoom(
            if zoom > -8 {
                (zoom - 1) as i32
            } else {
                (-8) as i32
            },
        ),
        effect_of(PlateMenuAction::ResetTextSize, zoom) == MenuEffect::Zoom(0),
        !(effect_of(action, zoom) is Zoom) ==> effect_of(action, zoom) == effect_of(action, other),
        effect_of(action, zoom) is Nothing <==> action == PlateMenuAction::Separator,
        effect_of(action, zoom) is CopySelection <==> action == PlateMenuAction::Copy,
        effect_of(action, zoom) is PasteClipboard <==> action == PlateMenuAction::Paste,
        effect_of(action, zoom) is ClearHistory <==> action == PlateMenuAction::ClearScrollback,
        effect_of(action, zoom) is ResetTerminal <==> action == PlateMenuAction::ResetTerminal,
        effect_of(action, zoom) is NewTab <==> action == PlateMenuAction::NewTab,
        effect_of(action, zoom) is CloseTab <==> action == PlateMenuAction::CloseTab,
        effect_of(action, zoom) is NewWindow <==> action == PlateMenuAction::NewWindow,
        effect_of(action, zoom) is ShowTab <==> action is ShowTab,
        action matches PlateMenuAction::ShowTab(id) ==> effect_of(action, zoom)
            == MenuEffect::ShowTab(id),
{
}

/// A text zoom is held between -8 and 24 and left alone inside.
pub proof fn zooms_are_held(steps: int)
    ensures
        -8 <= zoomed_to(steps) <= 24,
        -8 <= steps <= 24 ==> zoomed_to(steps) == steps,
        steps < -8 ==> zoomed_to(steps) == -8,
        steps > 24 ==> zoomed_to(steps) == 24,
{
}

} // verus!
