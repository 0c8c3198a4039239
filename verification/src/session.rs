//! The terminal window's state and what its events do: focus, pointer, wheel,
//! keys, and what the emulated terminal asks for. Every handler takes plain
//! values, updates the state and says what is to be done outside.

use alacritty_terminal::term::color::Colors;
use vstd::prelude::*;

use crate::colors::{indexed, Palette, Rgb, COLOR_COUNT};
use crate::keys::{encode_key, ElementState, Key, KeyEvent, NamedKey};
use crate::mode::TermMode;
use crate::mouse::mouse_report_bytes;
use crate::paste::paste_bytes;

verus! {

/// The window's initial size.
pub const INIT_W: u32 = 840;

pub const INIT_H: u32 = 520;

/// The window's smallest size.
pub const MIN_W: u32 = 240;

pub const MIN_H: u32 = 140;

/// Presses in one cell within this many nanoseconds escalate the selection.
pub const MULTI_CLICK_WINDOW: u64 = 400_000_000;

/// The fewest columns and rows of a grid.
pub const MIN_COLS: u16 = 2;

pub const MIN_ROWS: u16 = 1;

/// The most lines of history that can be configured.
pub const MAX_HISTORY: i64 = 200_000;

/// The model of bytes that may be sent.
pub open spec fn bytes_view(bytes: Option<Vec<u8>>) -> Option<Seq<u8>> {
    match bytes {
        Some(bytes) => Some(bytes@),
        None => None,
    }
}

/// `n` held between two bounds.
pub open spec fn clamped(n: int, low: int, high: int) -> int {
    if n < low {
        low
    } else if n > high {
        high
    } else {
        n
    }
}

/// The columns and rows of the grid in a window that `cols` by `rows` whole
/// cells fit into.
pub open spec fn grid_of(cols: int, rows: int) -> (int, int) {
    (
        clamped(cols, MIN_COLS as int, u16::MAX as int),
        clamped(rows, MIN_ROWS as int, u16::MAX as int),
    )
}

/// The grid of a window into which `cols` by `rows` whole cells fit: at least
/// two columns and a row, at most what a pty can be told.
pub fn grid_dims(cols: i64, rows: i64) -> (dims: (u16, u16))
    ensures
        dims.0 == grid_of(cols as int, rows as int).0,
        dims.1 == grid_of(cols as int, rows as int).1,
{
    (clamp_cells(cols, MIN_COLS), clamp_cells(rows, MIN_ROWS))
}

fn clamp_cells(n: i64, low: u16) -> (cells: u16)
    ensures
        cells == clamped(n as int, low as int, u16::MAX as int),
{
    if n < low as i64 {
        low
    } else if n > u16::MAX as i64 {
        u16::MAX
    } else {
        n as u16
    }
}

/// The history that a configured number of lines gives.
pub open spec fn history_of(configured: int) -> int {
    clamped(configured, 0, MAX_HISTORY as int)
}

/// The history that a configured number of lines gives.
pub fn scrollback_lines(configured: i64) -> (lines: usize)
    ensures
        lines == history_of(configured as int),
{
    if configured < 0 {
        0
    } else if configured > MAX_HISTORY {
        200_000
    } else {
        configured as usize
    }
}

/// The grid line of a row of the window.
pub open spec fn line_of(row: int, display_offset: int) -> int {
    row - display_offset
}

/// The grid line of a row of the window; history has negative lines.
pub fn grid_line(row: u16, display_offset: usize) -> (line: i32)
    requires
        display_offset <= i32::MAX,
    ensures
        line == line_of(row as int, display_offset as int),
{
    row as i32 - display_offset as i32
}

/// The scroll from one offset to another, if it takes one.
pub open spec fn step_to(target: int, current: int) -> Option<i32> {
    if target == current {
        None
    } else {
        Some((target - current) as i32)
    }
}

/// The scroll that brings the view from one offset to another; `None` when it
/// is there.
pub fn scroll_step(target: i32, current: i32) -> (delta: Option<i32>)
    requires
        i32::MIN <= target - current <= i32::MAX,
    ensures
        delta == step_to(target as int, current as int),
{
    if target == current {
        None
    } else {
        Some(target - current)
    }
}

/// Text with something in it.
pub open spec fn with_text(text: Option<String>) -> Option<String> {
    match text {
        Some(t) => if t@.len() > 0 {
            Some(t)
        } else {
            None
        },
        None => None,
    }
}

/// Text worth copying or pasting.
pub fn non_empty(text: Option<String>) -> (kept: Option<String>)
    ensures
        kept == with_text(text),
{
    match text {
        Some(t) => {
            if t.as_str().is_empty() {
                None
            } else {
                Some(t)
            }
        },
        None => None,
    }
}

/// The mouse buttons that are told apart.
#[derive(Clone, Copy, Debug, PartialEq, Eq, Structural)]
pub enum MouseButton {
    Left,
    Middle,
    Right,
    Other,
}

/// The xterm code of a button, if it has one here.
pub open spec fn button_code(button: MouseButton) -> Option<u8> {
    match button {
        MouseButton::Left => Some(0),
        MouseButton::Middle => Some(1),
        MouseButton::Right => Some(2),
        MouseButton::Other => None,
    }
}

fn code_of(button: MouseButton) -> (code: Option<u8>)
    ensures
        code == button_code(button),
{
    match button {
        MouseButton::Left => Some(0),
        MouseButton::Middle => Some(1),
        MouseButton::Right => Some(2),
        MouseButton::Other => None,
    }
}

/// The mouse buttons that are down.
#[derive(Clone, Copy, Debug, PartialEq, Eq, Structural)]
pub struct HeldButtons {
    pub left: bool,
    pub middle: bool,
    pub right: bool,
}

impl HeldButtons {
    /// No button is down.
    pub open spec fn none_held() -> HeldButtons {
        HeldButtons { left: false, middle: false, right: false }
    }

    pub open spec fn some_held(self) -> bool {
        self.left || self.middle || self.right
    }

    /// The held buttons after one went down or up.
    pub open spec fn after(self, button: MouseButton, state: ElementState) -> HeldButtons {
        let down = state == ElementState::Pressed;
        match button {
            MouseButton::Left => HeldButtons { left: down, ..self },
            MouseButton::Middle => HeldButtons { middle: down, ..self },
            MouseButton::Right => HeldButtons { right: down, ..self },
            MouseButton::Other => self,
        }
    }

    /// The code of the lowest held button, or 3 for none.
    pub open spec fn motion_button(self) -> u8 {
        if self.left {
            0
        } else if self.middle {
            1
        } else if self.right {
            2
        } else {
            3
        }
    }
}

/// How far a selection reaches around the clicked cell.
#[derive(Clone, Copy, Debug, PartialEq, Eq, Structural)]
pub enum SelectionType {
    Simple,
    Semantic,
    Lines,
}

/// The selection that the n-th click of a series starts.
pub open spec fn selection_type(clicks: u8) -> SelectionType {
    if clicks == 2 {
        SelectionType::Semantic
    } else if clicks == 3 {
        SelectionType::Lines
    } else {
        SelectionType::Simple
    }
}

/// A press of the left button: when, in nanoseconds, and on which grid cell.
#[derive(Clone, Copy, Debug, PartialEq, Eq, Structural)]
pub struct Click {
    pub at: u64,
    pub line: i32,
    pub column: usize,
}

/// `next` continues the series of `last`: it came soon and in the same cell.
pub open spec fn repeats(last: Option<Click>, next: Click) -> bool {
    last matches Some(click) && next.at < click.at + MULTI_CLICK_WINDOW && next.line == click.line
        && next.column == click.column
}

/// The two clipboards.
#[derive(Clone, Copy, Debug, PartialEq, Eq, Structural)]
pub enum Clipboard {
    /// The regular one.
    Clipboard,
    /// The PRIMARY selection.
    Selection,
}

/// What the pty and the emulated terminal tell.
#[derive(Clone, Debug)]
pub enum TermEvent {
    /// Output of the shell came and has gone through the parser.
    PtyOutput,
    PtyClosed,
    PtyWrite(String),
    Title(String),
    ResetTitle,
    ColorRequest(usize),
    TextAreaSizeRequest,
    ClipboardStore(Clipboard, String),
    ClipboardLoad(Clipboard),
    Bell,
    /// Wakeups, cursor blinking: nothing to do.
    Other,
}

/// What is to be done about a terminal event.
#[derive(Clone, Debug)]
pub enum Effect {
    Nothing,
    /// The shell is gone: reap it and leave.
    Exit,
    /// Bytes for the pty.
    Write(Vec<u8>),
    /// Answer with a color.
    ReplyColor(Rgb),
    /// Answer with the size of the text area in cells.
    ReplySize { rows: u16, cols: u16 },
    Store(Clipboard, String),
    /// Answer with the contents of a clipboard.
    Load(Clipboard),
    /// Flash the visual bell.
    Flash,
}

/// What a pointer move comes to.
#[derive(Clone, Debug)]
pub enum PointerMove {
    Nothing,
    /// A motion report for the pty.
    Report(Vec<u8>),
    /// The selection is extended to the pointer.
    ExtendSelection,
}

/// What a mouse button comes to.
#[derive(Clone, Debug)]
pub enum MouseOutcome {
    Nothing,
    /// A button report for the pty.
    Report(Vec<u8>),
    /// A new selection starts at the pointer; `rebuild` says whether the
    /// window has to be painted anew for it.
    StartSelection { ty: SelectionType, rebuild: bool },
    /// The selection is complete: copy it or drop it.
    FinishSelection,
    /// The PRIMARY selection is pasted.
    PastePrimary,
}

/// What becomes of a completed selection.
#[derive(Clone, Debug)]
pub enum SelectionEnd {
    /// It goes to PRIMARY.
    CopyPrimary(String),
    /// It was empty and goes away; `rebuild` says whether one was there.
    Drop { rebuild: bool },
}

/// Where the wheel's motion goes.
#[derive(Clone, Copy, Debug, PartialEq, Eq, Structural)]
pub enum WheelRoute {
    /// As mouse reports, by whole lines.
    Reports,
    /// As arrow keys to a full-screen application, by whole lines.
    Arrows,
    /// To the scrollback.
    Scrollback,
}

/// Which of the application's shortcuts a key event matches.
#[derive(Clone, Copy, Debug, PartialEq, Eq, Structural)]
pub struct Shortcuts {
    pub copy: bool,
    pub paste: bool,
    pub scroll_up: bool,
    pub scroll_down: bool,
}

/// What a key comes to.
#[derive(Clone, Debug)]
pub enum KeyAction {
    Nothing,
    CopySelection,
    PasteClipboard,
    PageUp,
    PageDown,
    /// Bytes for the pty; the selection goes, and the view snaps to the bottom
    /// where it was scrolled up.
    Send { bytes: Vec<u8>, clear_selection: bool, to_bottom: bool },
}

/// What a tick does for a selection drag past the window's edge.
#[derive(Clone, Copy, Debug, PartialEq, Eq, Structural)]
pub enum Autoscroll {
    /// No drag is going on.
    Idle,
    /// The pointer is inside: what had gathered is forgotten.
    Reset,
    /// Less than a line has gathered.
    Gather,
    /// So many lines are scrolled, and the selection extended.
    Scroll(i32),
}

/// The state of the terminal window that its events depend on.
#[derive(Clone, Debug)]
pub struct TerminalApp {
    pub cols: u16,
    pub rows: u16,
    /// The title that the running program has set.
    pub title: Option<String>,
    pub focused: bool,
    /// The left button is held: pointer moves extend the selection.
    pub selecting: bool,
    pub last_click: Option<Click>,
    pub click_count: u8,
    /// Modifiers, as the key events told them: mouse events carry none.
    pub shift_down: bool,
    pub ctrl_down: bool,
    pub alt_down: bool,
    pub held: HeldButtons,
    /// The cell of the last motion report: motion is told by the cell.
    pub last_mouse_cell: Option<(usize, usize)>,
}

impl TerminalApp {
    /// The grid is no smaller than it can be, and clicks are counted to three.
    pub open spec fn wf(self) -> bool {
        self.cols >= MIN_COLS && self.rows >= MIN_ROWS && self.click_count <= 3
    }

    /// Pointer events belong to the application and not to the selection.
    pub open spec fn reports_mouse(self, mode: TermMode) -> bool {
        mode.wants_mouse() && !self.shift_down
    }

    /// The modifier bits that every report's button code carries.
    pub open spec fn mods(self) -> u8 {
        ((if self.alt_down {
            8int
        } else {
            0
        }) + if self.ctrl_down {
            16int
        } else {
            0
        }) as u8
    }

    /// The cell of the window that the pointer is on, held inside the grid.
    pub open spec fn cell(self, at: (usize, usize)) -> (usize, usize) {
        (
            clamped(at.0 as int, 0, self.cols - 1) as usize,
            clamped(at.1 as int, 0, self.rows - 1) as usize,
        )
    }

    /// The report of a button code with the modifiers, at the pointer's cell.
    pub open spec fn report(
        self,
        mode: TermMode,
        code: u8,
        pressed: bool,
        at: (usize, usize),
    ) -> Seq<u8> {
        crate::mouse::mouse_report(
            mode,
            (code + self.mods()) as u8,
            pressed,
            self.cell(at).0 as int,
            self.cell(at).1 as int,
        )
    }

    /// A window with this grid and nothing going on.
    pub open spec fn fresh(cols: u16, rows: u16) -> TerminalApp {
        TerminalApp {
            cols,
            rows,
            title: None,
            focused: true,
            selecting: false,
            last_click: None,
            click_count: 0,
            shift_down: false,
            ctrl_down: false,
            alt_down: false,
            held: HeldButtons::none_held(),
            last_mouse_cell: None,
        }
    }

    /// A window with this grid and nothing going on.
    pub fn new(cols: u16, rows: u16) -> (app: TerminalApp)
        requires
            cols >= MIN_COLS,
            rows >= MIN_ROWS,
        ensures
            app == TerminalApp::fresh(cols, rows),
            app.wf(),
    {
        TerminalApp {
            cols,
            rows,
            title: None,
            focused: true,
            selecting: false,
            last_click: None,
            click_count: 0,
            shift_down: false,
            ctrl_down: false,
            alt_down: false,
            held: HeldButtons { left: false, middle: false, right: false },
            last_mouse_cell: None,
        }
    }

    /// The title that the window shows.
    pub open spec fn shown_title(self) -> Seq<char> {
        match self.title {
            Some(t) => t@,
            None => "cce-terminal"@,
        }
    }

    /// The window's title: what the running program set, or the terminal's own
    /// name.
    pub fn window_title(&self) -> (title: String)
        ensures
            title@ == self.shown_title(),
    {
        match &self.title {
            Some(t) => t.clone(),
            None => "cce-terminal".to_string(),
        }
    }

    /// Pixel positions become cells outside; here they are held in the grid.
    pub fn viewport_cell(&self, at: (usize, usize)) -> (cell: (usize, usize))
        requires
            self.wf(),
        ensures
            cell == self.cell(at),
            cell.0 < self.cols,
            cell.1 < self.rows,
    {
        let last_col: usize = self.cols as usize - 1;
        let last_row: usize = self.rows as usize - 1;
        (
            if at.0 > last_col {
                last_col
            } else {
                at.0
            },
            if at.1 > last_row {
                last_row
            } else {
                at.1
            },
        )
    }

    /// Whether pointer events currently belong to the application; holding
    /// shift keeps them for the selection.
    pub fn mouse_reporting(&self, mode: &TermMode) -> (on: bool)
        ensures
            on == self.reports_mouse(*mode),
    {
        mode.mouse_mode() && !self.shift_down
    }

    /// The modifier bits that are added to every report's button code.
    pub fn report_mods(&self) -> (bits: u8)
        ensures
            bits == self.mods(),
            bits <= 24,
    {
        let mut bits: u8 = 0;
        if self.alt_down {
            bits = bits + 8;
        }
        if self.ctrl_down {
            bits = bits + 16;
        }
        bits
    }

    fn mouse_report(&self, mode: &TermMode, code: u8, pressed: bool, at: (usize, usize)) -> (bytes:
        Vec<u8>)
        requires
            self.wf(),
            code <= 65,
        ensures
            bytes@ == self.report(*mode, code, pressed, at),
    {
        let (col, row) = self.viewport_cell(at);
        let code: u8 = code + self.report_mods();
        match mouse_report_bytes(*mode, code, pressed, col, row) {
            Some(bytes) => bytes,
            None => Vec::new(),
        }
    }

    /// What a change of focus comes to: the state after it, whether to paint,
    /// and the bytes for the application.
    pub open spec fn focus_changes(
        self,
        focused: bool,
        mode: TermMode,
        after: TerminalApp,
        out: (bool, Option<Vec<u8>>),
    ) -> bool {
        &&& after == if self.focused == focused {
            self
        } else {
            TerminalApp {
                focused,
                shift_down: false,
                ctrl_down: false,
                alt_down: false,
                held: HeldButtons::none_held(),
                ..self
            }
        }
        &&& out.0 == (self.focused != focused)
        &&& bytes_view(out.1) == if self.focused != focused && mode.focus_in_out {
            Some(
                seq![
                    0x1bu8,
                    '[' as u8,
                    if focused {
                        'I' as u8
                    } else {
                        'O' as u8
                    },
                ],
            )
        } else {
            None
        }
    }

    /// The window got or lost the focus: whether it has to be painted anew,
    /// and what the application is told. Modifier and button releases are lost
    /// while the window is unfocused, so both start clean.
    pub fn handle_focus_change(&mut self, focused: bool, mode: &TermMode) -> (out: (
        bool,
        Option<Vec<u8>>,
    ))
        ensures
            old(self).focus_changes(focused, *mode, *final(self), out),
            old(self).wf() ==> final(self).wf(),
    {
        if self.focused == focused {
            return (false, None);
        }
        self.focused = focused;
        self.shift_down = false;
        self.ctrl_down = false;
        self.alt_down = false;
        self.held = HeldButtons { left: false, middle: false, right: false };
        if mode.focus_in_out {
            let mut bytes: Vec<u8> = Vec::new();
            bytes.push(0x1b);
            bytes.push('[' as u8);
            bytes.push(
                if focused {
                    'I' as u8
                } else {
                    'O' as u8
                },
            );
            assert(bytes@ =~= seq![
                0x1bu8,
                '[' as u8,
                if focused {
                    'I' as u8
                } else {
                    'O' as u8
                },
            ]);
            (true, Some(bytes))
        } else {
            (true, None)
        }
    }

    /// A pointer move is told to the application: it wants motion, or motion
    /// with a button held, and the pointer has come to another cell.
    pub open spec fn tells_motion(self, mode: TermMode, at: (usize, usize)) -> bool {
        &&& self.reports_mouse(mode)
        &&& !self.selecting
        &&& mode.mouse_motion || (mode.mouse_drag && self.held.some_held())
        &&& self.last_mouse_cell != Some(self.cell(at))
    }

    /// The state after a pointer move to `at`.
    pub open spec fn after_move(self, at: (usize, usize), mode: TermMode) -> TerminalApp {
        if self.tells_motion(mode, at) {
            TerminalApp { last_mouse_cell: Some(self.cell(at)), ..self }
        } else {
            self
        }
    }

    /// What a pointer move comes to.
    pub open spec fn pointer_moves(
        self,
        at: (usize, usize),
        mode: TermMode,
        after: TerminalApp,
        out: PointerMove,
    ) -> bool {
        &&& after == self.after_move(at, mode)
        &&& match out {
            PointerMove::Report(bytes) => {
                &&& self.tells_motion(mode, at)
                &&& bytes@ == self.report(mode, (32 + self.held.motion_button()) as u8, true, at)
            },
            PointerMove::ExtendSelection => self.selecting,
            PointerMove::Nothing => !self.selecting && !self.tells_motion(mode, at),
        }
    }

    /// The pointer moved onto the cell `at`, as yet unclamped.
    pub fn handle_pointer_move(&mut self, at: (usize, usize), mode: &TermMode) -> (out: PointerMove)
        requires
            old(self).wf(),
        ensures
            old(self).pointer_moves(at, *mode, *final(self), out),
            final(self).wf(),
    {
        if self.mouse_reporting(mode) && !self.selecting {
            let some_held = self.held.left || self.held.middle || self.held.right;
            if mode.mouse_motion || (mode.mouse_drag && some_held) {
                let cell = self.viewport_cell(at);
                let moved = match self.last_mouse_cell {
                    Some(last) => last.0 != cell.0 || last.1 != cell.1,
                    None => true,
                };
                if moved {
                    self.last_mouse_cell = Some(cell);
                    let button: u8 = if self.held.left {
                        0
                    } else if self.held.middle {
                        1
                    } else if self.held.right {
                        2
                    } else {
                        3
                    };
                    return PointerMove::Report(self.mouse_report(mode, 32 + button, true, at));
                }
            }
            return PointerMove::Nothing;
        }
        if self.selecting {
            PointerMove::ExtendSelection
        } else {
            PointerMove::Nothing
        }
    }

    /// The button event goes to the application.
    pub open spec fn tells_button(self, mode: TermMode) -> bool {
        self.reports_mouse(mode) && !self.selecting
    }

    /// The number of a click in its series, from one to three and round again.
    pub open spec fn next_count(self, click: Click) -> u8 {
        if repeats(self.last_click, click) {
            (self.click_count % 3 + 1) as u8
        } else {
            1
        }
    }

    /// The state after a mouse button went down or up at `at`, on the grid
    /// cell and at the time of `click`.
    pub open spec fn after_button(
        self,
        button: MouseButton,
        state: ElementState,
        at: (usize, usize),
        click: Click,
        mode: TermMode,
    ) -> TerminalApp {
        let held = TerminalApp { held: self.held.after(button, state), ..self };
        if self.tells_button(mode) {
            if button != MouseButton::Other && state == ElementState::Pressed {
                TerminalApp { last_mouse_cell: Some(self.cell(at)), ..held }
            } else {
                held
            }
        } else if button == MouseButton::Left && state == ElementState::Pressed {
            TerminalApp {
                click_count: self.next_count(click),
                last_click: Some(click),
                selecting: true,
                ..held
            }
        } else if button == MouseButton::Left {
            TerminalApp { selecting: false, ..held }
        } else {
            held
        }
    }

    /// What a mouse button comes to.
    pub open spec fn button_acts(
        self,
        button: MouseButton,
        state: ElementState,
        at: (usize, usize),
        click: Click,
        had_selection: bool,
        mode: TermMode,
        after: TerminalApp,
        out: MouseOutcome,
    ) -> bool {
        &&& after == self.after_button(button, state, at, click, mode)
        &&& match out {
            MouseOutcome::Report(bytes) => {
                &&& self.tells_button(mode)
                &&& button_code(button) matches Some(code) && bytes@ == self.report(
                    mode,
                    code,
                    state == ElementState::Pressed,
                    at,
                )
            },
            MouseOutcome::StartSelection { ty, rebuild } => {
                &&& !self.tells_button(mode)
                &&& button == MouseButton::Left && state == ElementState::Pressed
                &&& ty == selection_type(self.next_count(click))
                &&& rebuild == (had_selection || ty != SelectionType::Simple)
            },
            MouseOutcome::FinishSelection => {
                &&& !self.tells_button(mode)
                &&& button == MouseButton::Left && state == ElementState::Released
            },
            MouseOutcome::PastePrimary => {
                &&& !self.tells_button(mode)
                &&& button == MouseButton::Middle && state == ElementState::Pressed
            },
            MouseOutcome::Nothing => {
                ||| self.tells_button(mode) && button == MouseButton::Other
                ||| !self.tells_button(mode) && button != MouseButton::Left && !(button
                    == MouseButton::Middle && state == ElementState::Pressed)
            },
        }
    }

    /// A mouse button went down or up on the cell `at`, as yet unclamped;
    /// `click` holds the time and the grid cell, `had_selection` whether
    /// something was selected.
    #[verifier::rlimit(40)]
    pub fn handle_mouse_input(
        &mut self,
        button: MouseButton,
        state: ElementState,
        at: (usize, usize),
        click: Click,
        had_selection: bool,
        mode: &TermMode,
    ) -> (out: MouseOutcome)
        requires
            old(self).wf(),
        ensures
            old(self).button_acts(
                button,
                state,
                at,
                click,
                had_selection,
                *mode,
                *final(self),
                out,
            ),
            final(self).wf(),
    {
        let down = state == ElementState::Pressed;
        match button {
            MouseButton::Left => {
                self.held.left = down;
            },
            MouseButton::Middle => {
                self.held.middle = down;
            },
            MouseButton::Right => {
                self.held.right = down;
            },
            MouseButton::Other => {},
        }
        if self.mouse_reporting(mode) && !self.selecting {
            return match code_of(button) {
                Some(code) => {
                    let bytes = self.mouse_report(mode, code, down, at);
                    if down {
                        self.last_mouse_cell = Some(self.viewport_cell(at));
                    }
                    MouseOutcome::Report(bytes)
                },
                None => MouseOutcome::Nothing,
            };
        }
        match (button, state) {
            (MouseButton::Left, ElementState::Pressed) => {
                let repeat = match self.last_click {
                    Some(last) => {
                        let elapsed: u64 = if click.at > last.at {
                            click.at - last.at
                        } else {
                            0
                        };
                        elapsed < MULTI_CLICK_WINDOW && last.line == click.line && last.column
                            == click.column
                    },
                    None => false,
                };
                self.click_count = if repeat {
                    self.click_count % 3 + 1
                } else {
                    1
                };
                self.last_click = Some(click);
                self.selecting = true;
                let ty = if self.click_count == 2 {
                    SelectionType::Semantic
                } else if self.click_count == 3 {
                    SelectionType::Lines
                } else {
                    SelectionType::Simple
                };
                MouseOutcome::StartSelection {
                    ty,
                    rebuild: had_selection || ty != SelectionType::Simple,
                }
            },
            (MouseButton::Left, ElementState::Released) => {
                self.selecting = false;
                MouseOutcome::FinishSelection
            },
            (MouseButton::Middle, ElementState::Pressed) => MouseOutcome::PastePrimary,
            _ => MouseOutcome::Nothing,
        }
    }

    /// Where the wheel's motion goes under the terminal's modes.
    pub open spec fn route(self, mode: TermMode) -> WheelRoute {
        if self.reports_mouse(mode) {
            WheelRoute::Reports
        } else if mode.alt_screen && mode.alternate_scroll {
            WheelRoute::Arrows
        } else {
            WheelRoute::Scrollback
        }
    }

    /// Where the wheel's motion goes now.
    pub fn wheel_route(&self, mode: &TermMode) -> (route: WheelRoute)
        ensures
            route == self.route(*mode),
    {
        if self.mouse_reporting(mode) {
            WheelRoute::Reports
        } else if mode.alt_screen && mode.alternate_scroll {
            WheelRoute::Arrows
        } else {
            WheelRoute::Scrollback
        }
    }

    /// What one line of wheel motion sends, up being positive.
    pub open spec fn wheel_line(
        self,
        lines: int,
        at: (usize, usize),
        mode: TermMode,
    ) -> Seq<u8> {
        if self.reports_mouse(mode) {
            self.report(
                mode,
                if lines > 0 {
                    64
                } else {
                    65
                },
                true,
                at,
            )
        } else if mode.alt_screen && mode.alternate_scroll {
            seq![
                0x1bu8,
                '[' as u8,
                if lines > 0 {
                    'A' as u8
                } else {
                    'B' as u8
                },
            ]
        } else {
            Seq::empty()
        }
    }

    /// The bytes of so many lines of wheel motion, up being positive.
    pub open spec fn wheel_bytes(self, lines: int, at: (usize, usize), mode: TermMode) -> Seq<u8> {
        repeated(
            self.wheel_line(lines, at, mode),
            if lines < 0 {
                -lines as nat
            } else {
                lines as nat
            },
        )
    }

    /// The bytes of `lines` whole lines of wheel motion, up being positive:
    /// nothing for the scrollback, whose motion is not by the line.
    pub fn handle_mouse_wheel(&self, lines: i32, at: (usize, usize), mode: &TermMode) -> (bytes: Vec<
        u8,
    >)
        requires
            self.wf(),
        ensures
            bytes@ == self.wheel_bytes(lines as int, at, *mode),
    {
        let one = match self.wheel_route(mode) {
            WheelRoute::Reports => self.mouse_report(
                mode,
                if lines > 0 {
                    64
                } else {
                    65
                },
                true,
                at,
            ),
            WheelRoute::Arrows => {
                let mut key: Vec<u8> = Vec::new();
                key.push(0x1b);
                key.push('[' as u8);
                key.push(
                    if lines > 0 {
                        'A' as u8
                    } else {
                        'B' as u8
                    },
                );
                key
            },
            WheelRoute::Scrollback => Vec::new(),
        };
        assert(one@ =~= self.wheel_line(lines as int, at, *mode));
        let count: u32 = if lines < 0 {
            (-(lines as i64)) as u32
        } else {
            lines as u32
        };
        repeat_bytes(&one, count)
    }

    /// The state after a key event, which may be of a modifier.
    pub open spec fn after_key(self, event: KeyEvent) -> TerminalApp {
        let down = event.state == ElementState::Pressed;
        match event.logical_key {
            Key::Named(NamedKey::Shift) => TerminalApp { shift_down: down, ..self },
            Key::Named(NamedKey::Control) => TerminalApp { ctrl_down: down, ..self },
            Key::Named(NamedKey::Alt) => TerminalApp { alt_down: down, ..self },
            _ => self,
        }
    }

    /// What a key comes to.
    pub open spec fn key_acts(
        self,
        event: KeyEvent,
        shortcuts: Shortcuts,
        had_selection: bool,
        display_offset: usize,
        mode: TermMode,
        after: TerminalApp,
        out: (KeyAction, bool),
    ) -> bool {
        let down = event.state == ElementState::Pressed;
        &&& after == self.after_key(event)
        &&& match out.0 {
            KeyAction::CopySelection => down && shortcuts.copy,
            KeyAction::PasteClipboard => down && !shortcuts.copy && shortcuts.paste,
            KeyAction::PageUp => down && !shortcuts.copy && !shortcuts.paste
                && shortcuts.scroll_up,
            KeyAction::PageDown => down && !shortcuts.copy && !shortcuts.paste
                && !shortcuts.scroll_up && shortcuts.scroll_down,
            KeyAction::Send { bytes, clear_selection, to_bottom } => {
                &&& down
                &&& no_shortcut(shortcuts)
                &&& crate::keys::sent_under(event, mode) == Some(bytes@)
                &&& clear_selection == had_selection
                &&& to_bottom == (display_offset != 0)
            },
            KeyAction::Nothing => !down || (no_shortcut(shortcuts) && crate::keys::sent_under(
                event,
                mode,
            ) is None),
        }
        &&& out.1 == match out.0 {
            KeyAction::PageUp | KeyAction::PageDown => true,
            KeyAction::Send { .. } => had_selection || display_offset != 0,
            _ => false,
        }
    }

    /// A key went down or up: what is to be done, and whether the window has
    /// to be painted anew. The application's shortcuts go before the encoding
    /// for the terminal.
    pub fn handle_key_input(
        &mut self,
        event: &KeyEvent,
        shortcuts: &Shortcuts,
        had_selection: bool,
        display_offset: usize,
        mode: &TermMode,
    ) -> (out: (KeyAction, bool))
        ensures
            old(self).key_acts(
                *event,
                *shortcuts,
                had_selection,
                display_offset,
                *mode,
                *final(self),
                out,
            ),
            old(self).wf() ==> final(self).wf(),
    {
        let down = event.state == ElementState::Pressed;
        if let Key::Named(key) = &event.logical_key {
            match key {
                NamedKey::Shift => {
                    self.shift_down = down;
                },
                NamedKey::Control => {
                    self.ctrl_down = down;
                },
                NamedKey::Alt => {
                    self.alt_down = down;
                },
                _ => {},
            }
        }
        if !down {
            return (KeyAction::Nothing, false);
        }
        if shortcuts.copy {
            return (KeyAction::CopySelection, false);
        }
        if shortcuts.paste {
            return (KeyAction::PasteClipboard, false);
        }
        if shortcuts.scroll_up {
            return (KeyAction::PageUp, true);
        }
        if shortcuts.scroll_down {
            return (KeyAction::PageDown, true);
        }
        match encode_key(event, *mode) {
            Some(bytes) => {
                let to_bottom = display_offset != 0;
                (
                    KeyAction::Send { bytes, clear_selection: had_selection, to_bottom },
                    had_selection || to_bottom,
                )
            },
            None => (KeyAction::Nothing, false),
        }
    }

    /// Pasted text: the bytes for the pty, and whether the view has to snap to
    /// the bottom.
    pub fn paste(&self, text: &str, display_offset: usize, mode: &TermMode) -> (out: (Vec<u8>, bool))
        ensures
            pastes(text@, display_offset as int, *mode, out),
    {
        (paste_bytes(text, mode.bracketed_paste), display_offset != 0)
    }

    /// The state after the window got room for `cols` by `rows` cells, and
    /// whether its grid is another one.
    pub open spec fn takes_grid(
        self,
        cols: int,
        rows: int,
        after: TerminalApp,
        changed: bool,
    ) -> bool {
        &&& after == (TerminalApp {
            cols: grid_of(cols, rows).0 as u16,
            rows: grid_of(cols, rows).1 as u16,
            ..self
        })
        &&& changed == (after.cols != self.cols || after.rows != self.rows)
    }

    /// The grid that the window has room for changed, or did not; `true` when
    /// pty and terminal have to be told.
    fn set_grid(&mut self, cols: i64, rows: i64) -> (changed: bool)
        ensures
            old(self).takes_grid(cols as int, rows as int, *final(self), changed),
            old(self).wf() ==> final(self).wf(),
    {
        let (cols, rows) = grid_dims(cols, rows);
        if cols != self.cols || rows != self.rows {
            self.cols = cols;
            self.rows = rows;
            true
        } else {
            false
        }
    }

    /// The window was resized to room for `cols` by `rows` whole cells; `true`
    /// when pty and terminal have to be told.
    pub fn handle_resize(&mut self, cols: i64, rows: i64) -> (changed: bool)
        ensures
            old(self).takes_grid(cols as int, rows as int, *final(self), changed),
            old(self).wf() ==> final(self).wf(),
    {
        self.set_grid(cols, rows)
    }

    /// What a new configuration comes to: whether to paint, and whether the
    /// grid is another one.
    pub open spec fn reloads(
        self,
        differs: bool,
        cols: int,
        rows: int,
        after: TerminalApp,
        out: (bool, bool),
    ) -> bool {
        &&& out.0 == differs
        &&& if differs {
            self.takes_grid(cols, rows, after, out.1)
        } else {
            after == self && !out.1
        }
    }

    /// The configuration was read anew: where it `differs` from before, the
    /// window is painted anew and its grid derived anew. Says whether to
    /// paint, and whether pty and terminal have to be told of another grid.
    pub fn reload(&mut self, differs: bool, cols: i64, rows: i64) -> (out: (bool, bool))
        ensures
            old(self).reloads(differs, cols as int, rows as int, *final(self), out),
            old(self).wf() ==> final(self).wf(),
    {
        if differs {
            (true, self.set_grid(cols, rows))
        } else {
            (false, false)
        }
    }

    /// What a tick does for a drag.
    pub open spec fn autoscroll_step(self, outside: bool, lines: i32) -> Autoscroll {
        if !self.selecting {
            Autoscroll::Idle
        } else if !outside {
            Autoscroll::Reset
        } else if lines == 0 {
            Autoscroll::Gather
        } else {
            Autoscroll::Scroll(lines)
        }
    }

    /// What a tick does when the pointer is `outside` the rows of the grid and
    /// `lines` whole lines have gathered since the last scroll.
    pub fn autoscroll(&self, outside: bool, lines: i32) -> (step: Autoscroll)
        ensures
            step == self.autoscroll_step(outside, lines),
    {
        if !self.selecting {
            Autoscroll::Idle
        } else if !outside {
            Autoscroll::Reset
        } else if lines == 0 {
            Autoscroll::Gather
        } else {
            Autoscroll::Scroll(lines)
        }
    }

    /// What an event of the terminal comes to, with the overrides of its color
    /// table.
    pub open spec fn event_acts(
        self,
        event: TermEvent,
        slots: Seq<Option<(u8, u8, u8)>>,
        palette: Palette,
        after: TerminalApp,
        out: (Effect, bool),
    ) -> bool {
        &&& after == (TerminalApp {
            title: match event {
                TermEvent::Title(title) => Some(title),
                TermEvent::ResetTitle => None,
                _ => self.title,
            },
            ..self
        })
        &&& match event {
            TermEvent::PtyClosed => out.0 == Effect::Exit,
            TermEvent::PtyWrite(text) => out.0 matches Effect::Write(bytes) && bytes@
                == vstd::utf8::encode_utf8(text@),
            TermEvent::ColorRequest(index) => out.0 == Effect::ReplyColor(
                crate::colors::slot_color(index as int, slots, palette),
            ),
            TermEvent::TextAreaSizeRequest => out.0 == (Effect::ReplySize {
                rows: self.rows,
                cols: self.cols,
            }),
            TermEvent::ClipboardStore(which, text) => out.0 == Effect::Store(which, text),
            TermEvent::ClipboardLoad(which) => out.0 == Effect::Load(which),
            TermEvent::Bell => out.0 == Effect::Flash,
            _ => out.0 == Effect::Nothing,
        }
        &&& out.1 == (event is PtyOutput || event is Title || event is ResetTitle || event is Bell)
    }

    /// The pty or the emulated terminal told something: what is to be done,
    /// and whether the window has to be painted anew.
    pub fn update(&mut self, event: TermEvent, overrides: &Colors, palette: &Palette) -> (out: (
        Effect,
        bool,
    ))
        requires
            event matches TermEvent::ColorRequest(index) ==> index < COLOR_COUNT,
        ensures
            old(self).event_acts(
                event,
                crate::colors::override_slots(*overrides),
                *palette,
                *final(self),
                out,
            ),
            old(self).wf() ==> final(self).wf(),
    {
        match event {
            TermEvent::PtyOutput => (Effect::Nothing, true),
            TermEvent::PtyClosed => (Effect::Exit, false),
            TermEvent::PtyWrite(text) => {
                let mut bytes: Vec<u8> = Vec::new();
                bytes.extend_from_slice(text.as_str().as_bytes());
                assert(bytes@ =~= vstd::utf8::encode_utf8(text@));
                (Effect::Write(bytes), false)
            },
            TermEvent::Title(title) => {
                self.title = Some(title);
                (Effect::Nothing, true)
            },
            TermEvent::ResetTitle => {
                self.title = None;
                (Effect::Nothing, true)
            },
            TermEvent::ColorRequest(index) => (
                Effect::ReplyColor(indexed(index, overrides, palette)),
                false,
            ),
            TermEvent::TextAreaSizeRequest => (
                Effect::ReplySize { rows: self.rows, cols: self.cols },
                false,
            ),
            TermEvent::ClipboardStore(which, text) => (Effect::Store(which, text), false),
            TermEvent::ClipboardLoad(which) => (Effect::Load(which), false),
            TermEvent::Bell => (Effect::Flash, true),
            TermEvent::Other => (Effect::Nothing, false),
        }
    }
}

/// No shortcut matches.
pub open spec fn no_shortcut(shortcuts: Shortcuts) -> bool {
    !shortcuts.copy && !shortcuts.paste && !shortcuts.scroll_up && !shortcuts.scroll_down
}

/// `s`, `n` times over.
pub open spec fn repeated(s: Seq<u8>, n: nat) -> Seq<u8>
    decreases n,
{
    if n == 0 {
        Seq::empty()
    } else {
        repeated(s, (n - 1) as nat) + s
    }
}

fn repeat_bytes(one: &Vec<u8>, count: u32) -> (bytes: Vec<u8>)
    ensures
        bytes@ == repeated(one@, count as nat),
{
    let mut bytes: Vec<u8> = Vec::new();
    let mut done: u32 = 0;
    while done < count
        invariant
            done <= count,
            bytes@ == repeated(one@, done as nat),
        decreases count - done,
    {
        bytes.extend_from_slice(one.as_slice());
        done = done + 1;
        assert(bytes@ =~= repeated(one@, done as nat));
    }
    bytes
}

/// What becomes of a completed selection with this text.
pub open spec fn selection_end(text: Option<String>, had_selection: bool) -> SelectionEnd {
    match with_text(text) {
        Some(t) => SelectionEnd::CopyPrimary(t),
        None => SelectionEnd::Drop { rebuild: had_selection },
    }
}

/// A paste comes to these bytes, and to a snap to the bottom or not.
pub open spec fn pastes(
    text: Seq<char>,
    display_offset: int,
    mode: TermMode,
    out: (Vec<u8>, bool),
) -> bool {
    &&& out.0@ == crate::paste::pasted(vstd::utf8::encode_utf8(text), mode.bracketed_paste)
    &&& out.1 == (display_offset != 0)
}

/// A completed selection: text goes to PRIMARY, an empty one (a plain click)
/// is dropped.
pub fn finish_selection(text: Option<String>, had_selection: bool) -> (end: SelectionEnd)
    ensures
        end == selection_end(text, had_selection),
{
    match non_empty(text) {
        Some(t) => SelectionEnd::CopyPrimary(t),
        None => SelectionEnd::Drop { rebuild: had_selection },
    }
}

impl TerminalApp {
    /// Holding shift keeps the pointer for the selection: no motion, no button
    /// and no wheel report goes out, whatever the application asked for.
    pub proof fn shift_keeps_the_pointer(self, mode: TermMode, at: (usize, usize))
        requires
            self.shift_down,
        ensures
            !self.tells_motion(mode, at),
            !self.tells_button(mode),
            !self.reports_mouse(mode),
    {
    }

    /// A drag that selects stays with the selection until its release, even if
    /// the application asks for the mouse meanwhile.
    pub proof fn drag_is_not_stolen(
        self,
        mode: TermMode,
        at: (usize, usize),
        click: Click,
    )
        requires
            self.selecting,
        ensures
            !self.tells_motion(mode, at),
            !self.tells_button(mode),
            !self.after_button(
                MouseButton::Left,
                ElementState::Released,
                at,
                click,
                mode,
            ).selecting,
    {
    }

    /// Motion is told by the cell: after a move to a cell, or a reported press
    /// on it, moving inside that cell tells nothing more.
    pub proof fn motion_is_told_once_per_cell(
        self,
        at: (usize, usize),
        next: (usize, usize),
        button: MouseButton,
        click: Click,
        mode: TermMode,
    )
        requires
            self.cell(next) == self.cell(at),
        ensures
            !self.after_move(at, mode).tells_motion(mode, next),
            self.tells_button(mode) && button != MouseButton::Other ==> !self.after_button(
                button,
                ElementState::Pressed,
                at,
                click,
                mode,
            ).tells_motion(mode, next),
    {
    }

    /// The state after the left button went down and up again.
    pub open spec fn after_click(
        self,
        at: (usize, usize),
        click: Click,
        mode: TermMode,
    ) -> TerminalApp {
        self.after_button(MouseButton::Left, ElementState::Pressed, at, click, mode).after_button(
            MouseButton::Left,
            ElementState::Released,
            at,
            click,
            mode,
        )
    }

    /// Quick clicks on one cell select by the character, the word and the
    /// line in turn, and then by the character again.
    pub proof fn clicks_escalate(
        self,
        at: (usize, usize),
        first: Click,
        second: Click,
        third: Click,
        fourth: Click,
        mode: TermMode,
    )
        requires
            !self.reports_mouse(mode),
            !repeats(self.last_click, first),
            repeats(Some(first), second),
            repeats(Some(second), third),
            repeats(Some(third), fourth),
        ensures
            ({
                let one = self.after_click(at, first, mode);
                let two = one.after_click(at, second, mode);
                let three = two.after_click(at, third, mode);
                &&& selection_type(self.next_count(first)) == SelectionType::Simple
                &&& selection_type(one.next_count(second)) == SelectionType::Semantic
                &&& selection_type(two.next_count(third)) == SelectionType::Lines
                &&& selection_type(three.next_count(fourth)) == SelectionType::Simple
            }),
    {
    }

    /// A slow press, or one on another cell, starts over.
    pub proof fn other_clicks_start_over(self, last: Click, next: Click)
        requires
            self.last_click == Some(last),
            next.at >= last.at + MULTI_CLICK_WINDOW || next.line != last.line || next.column
                != last.column,
        ensures
            selection_type(self.next_count(next)) == SelectionType::Simple,
    {
    }
}

/// A button that goes down and up again leaves the others as they were.
pub proof fn press_and_release_cancel(held: HeldButtons, button: MouseButton)
    ensures
        held.after(button, ElementState::Pressed).after(button, ElementState::Released)
            == held.after(button, ElementState::Released),
        button == MouseButton::Other ==> held.after(button, ElementState::Pressed) == held,
{
}

/// Wheel motion adds up: so many lines and so many more send what all of them
/// send at once.
pub proof fn wheel_lines_add_up(line: Seq<u8>, m: nat, n: nat)
    ensures
        repeated(line, m) + repeated(line, n) == repeated(line, m + n),
        repeated(line, m).len() == m * line.len(),
    decreases n, m,
{
    if n > 0 {
        wheel_lines_add_up(line, m, (n - 1) as nat);
        assert(repeated(line, m) + repeated(line, n) =~= repeated(line, (m + n - 1) as nat) + line);
    } else if m > 0 {
        wheel_lines_add_up(line, (m - 1) as nat, 0);
        assert(m * line.len() == (m - 1) * line.len() + line.len()) by (nonlinear_arith)
            requires
                m > 0,
        ;
        assert(repeated(line, m) + repeated(line, 0) =~= repeated(line, m));
    } else {
        assert(repeated(line, 0) + repeated(line, 0) =~= repeated(line, 0));
        assert(0 * line.len() == 0) by (nonlinear_arith);
    }
}

/// The grid has at least two columns and a row and at most 65535 of each; in
/// between it is what fits, the one whatever the other.
pub proof fn grids_take_what_fits(cols: int, rows: int, other: int)
    ensures
        2 <= grid_of(cols, rows).0 <= 65535,
        1 <= grid_of(cols, rows).1 <= 65535,
        2 <= cols <= 65535 ==> grid_of(cols, rows).0 == cols,
        1 <= rows <= 65535 ==> grid_of(cols, rows).1 == rows,
        cols < 2 ==> grid_of(cols, rows).0 == 2,
        rows < 1 ==> grid_of(cols, rows).1 == 1,
        cols > 65535 ==> grid_of(cols, rows).0 == 65535,
        rows > 65535 ==> grid_of(cols, rows).1 == 65535,
        grid_of(cols, other).0 == grid_of(cols, rows).0,
        grid_of(other, rows).1 == grid_of(cols, rows).1,
{
}

/// A configured history is kept between none and 200000 lines.
pub proof fn histories_are_bounded(configured: int)
    ensures
        0 <= history_of(configured) <= 200_000,
        0 <= configured <= 200_000 ==> history_of(configured) == configured,
        configured < 0 ==> history_of(configured) == 0,
        configured > 200_000 ==> history_of(configured) == 200_000,
{
}

/// Scrolling up by one shows the line before in every row, and a scroll step
/// leads from the one offset to the other.
pub proof fn scrolling_moves_by_lines(row: int, offset: int, target: i32, current: i32)
    requires
        i32::MIN <= target - current <= i32::MAX,
    ensures
        line_of(row, 0) == row,
        line_of(row, offset + 1) == line_of(row, offset) - 1,
        line_of(row + 1, offset) == line_of(row, offset) + 1,
        line_of(row, offset) + offset == row,
        step_to(target as int, current as int) is None <==> target == current,
        step_to(target as int, current as int) matches Some(delta) ==> current + delta == target,
{
}

/// Text goes on as it is, and nothing goes on where there is none; a finished
/// selection is copied to the letter, or dropped, which shows exactly where
/// one was there.
pub proof fn only_text_is_copied(text: Option<String>, had_selection: bool)
    ensures
        with_text(text) is Some <==> text is Some && text->0@.len() > 0,
        with_text(text) is Some ==> with_text(text) == text,
        text is Some && text->0@.len() > 0 ==> selection_end(text, had_selection)
            == SelectionEnd::CopyPrimary(text->0),
        !(text is Some && text->0@.len() > 0) ==> selection_end(text, had_selection) == (
        SelectionEnd::Drop { rebuild: had_selection }),
{
}

/// A paste sends the text in brackets exactly where the program asked for
/// them, and the view goes to the bottom where it was not there.
pub proof fn pastes_follow_their_mode(
    text: Seq<char>,
    offset: int,
    mode: TermMode,
    out: (Vec<u8>, bool),
)
    requires
        pastes(text, offset, mode, out),
    ensures
        mode.bracketed_paste ==> out.0@ == crate::paste::pasted(
            vstd::utf8::encode_utf8(text),
            true,
        ),
        !mode.bracketed_paste ==> out.0@ == crate::paste::pasted(
            vstd::utf8::encode_utf8(text),
            false,
        ),
        out.1 <==> offset != 0,
{
}

/// A press takes its own button down and a release takes it up, and neither
/// touches another; a button without a name touches none.
pub proof fn buttons_are_held_apart(held: HeldButtons, button: MouseButton, state: ElementState)
    ensures
        ({
            let after = held.after(button, state);
            let down = state == ElementState::Pressed;
            &&& button == MouseButton::Left ==> after.left == down
            &&& button == MouseButton::Middle ==> after.middle == down
            &&& button == MouseButton::Right ==> after.right == down
            &&& button != MouseButton::Left ==> after.left == held.left
            &&& button != MouseButton::Middle ==> after.middle == held.middle
            &&& button != MouseButton::Right ==> after.right == held.right
        }),
{
}

impl TerminalApp {
    /// The title is what the program set last, or the terminal's own name.
    pub proof fn titles_are_the_programs(self)
        ensures
            self.title matches Some(title) ==> self.shown_title() == title@,
            self.title is None ==> self.shown_title() == "cce-terminal"@,
    {
    }

    /// A new window has its grid, the focus and its own title; nothing is held,
    /// selected, clicked or told, so its first press is never part of a series
    /// and its first wanted motion is told wherever it goes.
    pub proof fn new_windows_are_idle(
        cols: u16,
        rows: u16,
        click: Click,
        at: (usize, usize),
        mode: TermMode,
    )
        ensures
            ({
                let app = TerminalApp::fresh(cols, rows);
                &&& app.cols == cols && app.rows == rows
                &&& app.focused && !app.selecting
                &&& !app.shift_down && !app.ctrl_down && !app.alt_down
                &&& !app.held.left && !app.held.middle && !app.held.right
                &&& app.shown_title() == "cce-terminal"@
                &&& app.next_count(click) == 1
                &&& mode.mouse_motion ==> app.tells_motion(mode, at)
            }),
    {
    }

    /// The pointer is the program's exactly where some mouse mode is on and
    /// shift is up.
    pub proof fn reports_need_a_mouse_mode(self, mode: TermMode)
        ensures
            self.reports_mouse(mode) <==> (mode.mouse_report_click || mode.mouse_motion
                || mode.mouse_drag) && !self.shift_down,
    {
    }

    /// A report is one of the code with 8 more for alt and 16 more for ctrl, at
    /// the pointer's cell, or the grid's nearest where the pointer is outside.
    pub proof fn reports_carry_modifiers_and_cell(
        self,
        mode: TermMode,
        code: u8,
        pressed: bool,
        at: (usize, usize),
    )
        requires
            self.wf(),
            code <= 65,
        ensures
            ({
                let alt: int = if self.alt_down {
                    8
                } else {
                    0
                };
                let ctrl: int = if self.ctrl_down {
                    16
                } else {
                    0
                };
                let col: int = if at.0 < self.cols {
                    at.0 as int
                } else {
                    self.cols - 1
                };
                let row: int = if at.1 < self.rows {
                    at.1 as int
                } else {
                    self.rows - 1
                };
                &&& self.report(mode, code, pressed, at) == crate::mouse::mouse_report(
                    mode,
                    (code + alt + ctrl) as u8,
                    pressed,
                    col,
                    row,
                )
                &&& self.cell(at).0 == col
                &&& self.cell(at).1 == row
            }),
    {
    }

    /// Getting or losing the focus forgets every held key and button and
    /// nothing else; the program hears of it where it asked, once a change.
    pub proof fn focus_changes_start_clean(
        self,
        focused: bool,
        mode: TermMode,
        after: TerminalApp,
        out: (bool, Option<Vec<u8>>),
    )
        requires
            self.focus_changes(focused, mode, after, out),
        ensures
            after.focused == focused,
            self.focused == focused ==> after == self && !out.0 && out.1 is None,
            self.focused != focused ==> {
                &&& out.0
                &&& !after.shift_down && !after.ctrl_down && !after.alt_down
                &&& !after.held.left && !after.held.middle && !after.held.right
                &&& out.1 is Some <==> mode.focus_in_out
            },
            out.1 matches Some(bytes) ==> bytes@.len() == 3 && bytes@[0] == 0x1b && bytes@[1]
                == 0x5b && bytes@[2] == if focused {
                0x49u8
            } else {
                0x4fu8
            },
            after.cols == self.cols && after.rows == self.rows && after.title == self.title,
            after.selecting == self.selecting && after.last_click == self.last_click,
            after.click_count == self.click_count && after.last_mouse_cell == self.last_mouse_cell,
    {
    }

    /// Which pointer moves are told: a mouse mode is on and shift is up, no
    /// selection is being dragged, the program wants all motion, or motion
    /// with a button held and one is, and the cell is not the last one told.
    /// While selecting every move extends the selection, whatever the program
    /// wants, and a move changes nothing but the cell last told.
    pub proof fn moves_are_told_where_wanted(
        self,
        at: (usize, usize),
        mode: TermMode,
        after: TerminalApp,
        out: PointerMove,
    )
        requires
            self.wf(),
            self.pointer_moves(at, mode, after, out),
        ensures
            out is ExtendSelection <==> self.selecting,
            out is Report <==> {
                &&& mode.mouse_report_click || mode.mouse_motion || mode.mouse_drag
                &&& !self.shift_down
                &&& !self.selecting
                &&& mode.mouse_motion || (mode.mouse_drag && (self.held.left || self.held.middle
                    || self.held.right))
                &&& self.last_mouse_cell != Some(self.cell(at))
            },
            out is Report ==> after == (TerminalApp {
                last_mouse_cell: Some(self.cell(at)),
                ..self
            }),
            !(out is Report) ==> after == self,
    {
    }

    /// A motion report tells the lowest held button: left before middle before
    /// right, and 3 exactly where none is held; 32 and the modifiers come on
    /// top, at the cell that the pointer came to.
    pub proof fn motion_tells_the_lowest_button(
        self,
        at: (usize, usize),
        mode: TermMode,
        after: TerminalApp,
        bytes: Vec<u8>,
    ) -> (code: u8)
        requires
            self.wf(),
            self.pointer_moves(at, mode, after, PointerMove::Report(bytes)),
        ensures
            bytes@ == crate::mouse::mouse_report(
                mode,
                code,
                true,
                if at.0 < self.cols {
                    at.0 as int
                } else {
                    self.cols - 1
                },
                if at.1 < self.rows {
                    at.1 as int
                } else {
                    self.rows - 1
                },
            ),
            code / 32 == 1,
            (code / 16) % 2 == 1 <==> self.ctrl_down,
            (code / 8) % 2 == 1 <==> self.alt_down,
            (code / 4) % 2 == 0,
            self.held.left ==> code % 4 == 0,
            !self.held.left && self.held.middle ==> code % 4 == 1,
            !self.held.left && !self.held.middle && self.held.right ==> code % 4 == 2,
            code % 4 == 3 <==> !self.held.left && !self.held.middle && !self.held.right,
    {
        self.reports_carry_modifiers_and_cell(
            mode,
            (32 + self.held.motion_button()) as u8,
            true,
            at,
        );
        let alt: int = if self.alt_down {
            8
        } else {
            0
        };
        let ctrl: int = if self.ctrl_down {
            16
        } else {
            0
        };
        (32 + self.held.motion_button() + alt + ctrl) as u8
    }

    /// A drag tells the button whose press was told: where no other button is
    /// held, moving to another cell reports the code of the press and 32 more.
    pub proof fn drags_tell_the_pressed_button(
        self,
        button: MouseButton,
        at: (usize, usize),
        click: Click,
        had_selection: bool,
        mode: TermMode,
        pressed: TerminalApp,
        press: MouseOutcome,
        next: (usize, usize),
        moved: TerminalApp,
        motion: PointerMove,
    ) -> (code: u8)
        requires
            self.wf(),
            !self.held.left && !self.held.middle && !self.held.right,
            mode.mouse_drag || mode.mouse_motion,
            !self.shift_down && !self.selecting,
            button != MouseButton::Other,
            self.button_acts(
                button,
                ElementState::Pressed,
                at,
                click,
                had_selection,
                mode,
                pressed,
                press,
            ),
            pressed.pointer_moves(next, mode, moved, motion),
            self.cell(next) != self.cell(at),
        ensures
            press is Report && press->Report_0@ == crate::mouse::mouse_report(
                mode,
                code,
                true,
                self.cell(at).0 as int,
                self.cell(at).1 as int,
            ),
            motion is Report && motion->Report_0@ == crate::mouse::mouse_report(
                mode,
                (code + 32) as u8,
                true,
                self.cell(next).0 as int,
                self.cell(next).1 as int,
            ),
    {
        (button_code(button)->0 + self.mods()) as u8
    }

    /// Whose a button event is: the program's, where a mouse mode is on, shift
    /// is up and no selection is being dragged, and it is told every named
    /// button then, with code 0, 1 or 2 for left, middle and right. Otherwise
    /// a left press starts a selection, its release finishes it, a middle
    /// press pastes, and nothing comes of the rest.
    pub proof fn buttons_go_one_way(
        self,
        button: MouseButton,
        state: ElementState,
        at: (usize, usize),
        click: Click,
        had_selection: bool,
        mode: TermMode,
        after: TerminalApp,
        out: MouseOutcome,
    )
        requires
            self.wf(),
            self.button_acts(button, state, at, click, had_selection, mode, after, out),
        ensures
            ({
                let program = (mode.mouse_report_click || mode.mouse_motion || mode.mouse_drag)
                    && !self.shift_down && !self.selecting;
                let down = state == ElementState::Pressed;
                &&& out is Report <==> program && button != MouseButton::Other
                &&& out matches MouseOutcome::Report(bytes) ==> {
                    &&& button == MouseButton::Left ==> bytes@ == self.report(mode, 0, down, at)
                    &&& button == MouseButton::Middle ==> bytes@ == self.report(mode, 1, down, at)
                    &&& button == MouseButton::Right ==> bytes@ == self.report(mode, 2, down, at)
                }
                &&& out is StartSelection <==> !program && button == MouseButton::Left && down
                &&& out is FinishSelection <==> !program && button == MouseButton::Left && !down
                &&& out is PastePrimary <==> !program && button == MouseButton::Middle && down
                &&& out matches MouseOutcome::StartSelection { ty, rebuild } ==> (rebuild
                    <==> had_selection || ty != SelectionType::Simple)
            }),
    {
    }

    /// What a button event changes: the buttons held, always; the cell last
    /// told, by a told press; the series of clicks and the drag, by a left
    /// button that selects; and nothing else.
    pub proof fn buttons_change_little(
        self,
        button: MouseButton,
        state: ElementState,
        at: (usize, usize),
        click: Click,
        had_selection: bool,
        mode: TermMode,
        after: TerminalApp,
        out: MouseOutcome,
    )
        requires
            self.wf(),
            self.button_acts(button, state, at, click, had_selection, mode, after, out),
        ensures
            after.held == self.held.after(button, state),
            after.last_mouse_cell == if out is Report && state == ElementState::Pressed {
                Some(self.cell(at))
            } else {
                self.last_mouse_cell
            },
            after.selecting == (if out is StartSelection {
                true
            } else if out is FinishSelection {
                false
            } else {
                self.selecting
            }),
            out is StartSelection ==> after.last_click == Some(click),
            !(out is StartSelection) ==> after.last_click == self.last_click && after.click_count
                == self.click_count,
            after.cols == self.cols && after.rows == self.rows && after.title == self.title,
            after.focused == self.focused && after.shift_down == self.shift_down,
            after.ctrl_down == self.ctrl_down && after.alt_down == self.alt_down,
    {
    }

    /// How far a press selects: by the cell alone, but by the word on the
    /// second and by the line on the third of a series of presses, each within
    /// 400 milliseconds of the one before and on its cell; then the series
    /// begins again.
    pub proof fn series_of_clicks_select_wider(
        self,
        at: (usize, usize),
        click: Click,
        had_selection: bool,
        mode: TermMode,
        after: TerminalApp,
        ty: SelectionType,
        rebuild: bool,
    )
        requires
            self.wf(),
            self.button_acts(
                MouseButton::Left,
                ElementState::Pressed,
                at,
                click,
                had_selection,
                mode,
                after,
                MouseOutcome::StartSelection { ty, rebuild },
            ),
        ensures
            ({
                let goes_on = self.last_click is Some && click.at < self.last_click->0.at
                    + 400_000_000 && click.line == self.last_click->0.line && click.column
                    == self.last_click->0.column;
                &&& !goes_on ==> after.click_count == 1
                &&& goes_on && self.click_count < 3 ==> after.click_count == self.click_count + 1
                &&& goes_on && self.click_count == 3 ==> after.click_count == 1
                &&& after.click_count == 1 ==> ty == SelectionType::Simple
                &&& after.click_count == 2 ==> ty == SelectionType::Semantic
                &&& after.click_count == 3 ==> ty == SelectionType::Lines
            }),
    {
    }

    /// The wheel's bytes follow its route. Wherever a mouse mode is on and
    /// shift is up the route is reports, alternate screen or not; else arrows
    /// where the alternate screen wants them; else the scrollback.
    pub proof fn the_wheel_goes_three_ways(self, mode: TermMode)
        ensures
            self.route(mode) == WheelRoute::Reports <==> (mode.mouse_report_click
                || mode.mouse_motion || mode.mouse_drag) && !self.shift_down,
            self.route(mode) == WheelRoute::Arrows <==> self.route(mode) != WheelRoute::Reports
                && mode.alt_screen && mode.alternate_scroll,
    {
    }

    /// One line of the wheel: on the reports' route a press of button 64 up
    /// and 65 down at the pointer, on the arrows' route `ESC [ A` up and
    /// `ESC [ B` down, and nothing on the way to the scrollback.
    pub proof fn one_line_of_the_wheel(self, at: (usize, usize), mode: TermMode)
        ensures
            self.route(mode) == WheelRoute::Reports ==> {
                &&& self.wheel_bytes(1, at, mode) == self.report(mode, 64, true, at)
                &&& self.wheel_bytes(-1, at, mode) == self.report(mode, 65, true, at)
            },
            self.route(mode) == WheelRoute::Arrows ==> {
                &&& self.wheel_bytes(1, at, mode) == seq![0x1bu8, 0x5bu8, 0x41u8]
                &&& self.wheel_bytes(-1, at, mode) == seq![0x1bu8, 0x5bu8, 0x42u8]
            },
            self.route(mode) == WheelRoute::Scrollback ==> {
                &&& self.wheel_bytes(1, at, mode).len() == 0
                &&& self.wheel_bytes(-1, at, mode).len() == 0
            },
            self.wheel_bytes(0, at, mode).len() == 0,
    {
        reveal_with_fuel(repeated, 2);
        assert(self.wheel_bytes(1, at, mode) =~= self.wheel_line(1, at, mode));
        assert(self.wheel_bytes(-1, at, mode) =~= self.wheel_line(-1, at, mode));
    }

    /// So many lines of the wheel send what so many single lines send, one
    /// after the other.
    pub proof fn the_wheel_goes_line_by_line(
        self,
        lines: int,
        more: int,
        at: (usize, usize),
        mode: TermMode,
    )
        requires
            (lines >= 0 && more >= 0) || (lines <= 0 && more <= 0),
        ensures
            self.wheel_bytes(lines + more, at, mode) == self.wheel_bytes(lines, at, mode)
                + self.wheel_bytes(more, at, mode),
    {
        let m: nat = if lines < 0 {
            -lines as nat
        } else {
            lines as nat
        };
        let n: nat = if more < 0 {
            -more as nat
        } else {
            more as nat
        };
        if lines + more == 0 {
            assert(self.wheel_bytes(0, at, mode) + self.wheel_bytes(0, at, mode)
                =~= self.wheel_bytes(0, at, mode));
        } else {
            let line = self.wheel_line(lines + more, at, mode);
            if lines != 0 {
                assert(self.wheel_line(lines, at, mode) == line);
            } else {
                assert(repeated(self.wheel_line(lines, at, mode), 0) =~= repeated(line, 0));
            }
            if more != 0 {
                assert(self.wheel_line(more, at, mode) == line);
            } else {
                assert(repeated(self.wheel_line(more, at, mode), 0) =~= repeated(line, 0));
            }
            wheel_lines_add_up(line, m, n);
        }
    }

    /// What a key event does: a release nothing, a shortcut its own, copying
    /// first, then pasting, then paging up and down; and every other key sends
    /// its bytes to the program, where it has any, repeated or not.
    pub proof fn keys_go_one_way(
        self,
        event: KeyEvent,
        shortcuts: Shortcuts,
        had_selection: bool,
        display_offset: usize,
        mode: TermMode,
        after: TerminalApp,
        out: (KeyAction, bool),
    )
        requires
            self.key_acts(event, shortcuts, had_selection, display_offset, mode, after, out),
        ensures
            ({
                let down = event.state == ElementState::Pressed;
                let sent = crate::keys::key_bytes(event, mode.app_cursor);
                let ours = shortcuts.copy || shortcuts.paste || shortcuts.scroll_up
                    || shortcuts.scroll_down;
                &&& !down ==> out.0 is Nothing
                &&& out.0 is CopySelection <==> down && shortcuts.copy
                &&& out.0 is PasteClipboard <==> down && shortcuts.paste && !shortcuts.copy
                &&& out.0 is PageUp <==> down && shortcuts.scroll_up && !shortcuts.copy
                    && !shortcuts.paste
                &&& out.0 is PageDown <==> down && shortcuts.scroll_down && !shortcuts.copy
                    && !shortcuts.paste && !shortcuts.scroll_up
                &&& out.0 is Send <==> down && !ours && sent is Some
                &&& out.0 matches KeyAction::Send { bytes, clear_selection, to_bottom } ==> {
                    &&& Some(bytes@) == sent
                    &&& clear_selection <==> had_selection
                    &&& to_bottom <==> display_offset != 0
                }
                &&& out.1 <==> out.0 is PageUp || out.0 is PageDown || (out.0 is Send && (
                had_selection || display_offset != 0))
            }),
    {
    }

    /// A modifier key is down from its press to its release; no key event
    /// changes anything else.
    pub proof fn modifiers_are_followed(
        self,
        event: KeyEvent,
        shortcuts: Shortcuts,
        had_selection: bool,
        display_offset: usize,
        mode: TermMode,
        after: TerminalApp,
        out: (KeyAction, bool),
    )
        requires
            self.key_acts(event, shortcuts, had_selection, display_offset, mode, after, out),
        ensures
            ({
                let down = event.state == ElementState::Pressed;
                let key = event.logical_key;
                &&& key == Key::Named(NamedKey::Shift) ==> after.shift_down == down
                &&& key == Key::Named(NamedKey::Control) ==> after.ctrl_down == down
                &&& key == Key::Named(NamedKey::Alt) ==> after.alt_down == down
                &&& key != Key::Named(NamedKey::Shift) ==> after.shift_down == self.shift_down
                &&& key != Key::Named(NamedKey::Control) ==> after.ctrl_down == self.ctrl_down
                &&& key != Key::Named(NamedKey::Alt) ==> after.alt_down == self.alt_down
                &&& (TerminalApp {
                    shift_down: self.shift_down,
                    ctrl_down: self.ctrl_down,
                    alt_down: self.alt_down,
                    ..after
                }) == self
            }),
    {
    }

    /// A resize changes the grid and nothing else, and pty and terminal are
    /// told exactly where it did; doing it twice tells nothing new.
    pub proof fn resizes_are_told_once(
        self,
        cols: int,
        rows: int,
        after: TerminalApp,
        changed: bool,
        again: TerminalApp,
        changed_again: bool,
    )
        requires
            self.takes_grid(cols, rows, after, changed),
            after.takes_grid(cols, rows, again, changed_again),
        ensures
            after.cols == grid_of(cols, rows).0,
            after.rows == grid_of(cols, rows).1,
            (TerminalApp { cols: self.cols, rows: self.rows, ..after }) == self,
            changed <==> after != self,
            again == after && !changed_again,
    {
    }

    /// A configuration that did not change does nothing; one that did paints
    /// anew and takes the grid as a resize does.
    pub proof fn reloads_are_resizes(
        self,
        differs: bool,
        cols: int,
        rows: int,
        after: TerminalApp,
        out: (bool, bool),
        resized: TerminalApp,
        changed: bool,
    )
        requires
            self.reloads(differs, cols, rows, after, out),
            self.takes_grid(cols, rows, resized, changed),
        ensures
            out.0 <==> differs,
            differs ==> after == resized && out.1 == changed,
            !differs ==> after == self && !out.1,
    {
    }

    /// A drag past the edge scrolls by the lines that gathered, all of them,
    /// as soon as there is one; inside the window what gathered is forgotten,
    /// and without a drag nothing is done.
    pub proof fn drags_scroll_what_gathered(self, outside: bool, lines: i32)
        ensures
            self.autoscroll_step(outside, lines) == Autoscroll::Idle <==> !self.selecting,
            self.autoscroll_step(outside, lines) == Autoscroll::Reset <==> self.selecting
                && !outside,
            self.autoscroll_step(outside, lines) is Scroll <==> self.selecting && outside && lines
                != 0,
            self.autoscroll_step(outside, lines) matches Autoscroll::Scroll(n) ==> n == lines,
    {
    }

    /// Titles are the only state that the terminal's events change, and only
    /// output, titles and the bell are seen in the window.
    pub proof fn events_change_the_title_alone(
        self,
        event: TermEvent,
        slots: Seq<Option<(u8, u8, u8)>>,
        palette: Palette,
        after: TerminalApp,
        out: (Effect, bool),
    )
        requires
            self.event_acts(event, slots, palette, after, out),
        ensures
            (TerminalApp { title: self.title, ..after }) == self,
            event matches TermEvent::Title(title) ==> after.shown_title() == title@,
            event is ResetTitle ==> after.shown_title() == "cce-terminal"@,
            !(event is Title) && !(event is ResetTitle) ==> after == self,
            out.1 <==> event is PtyOutput || event is Title || event is ResetTitle || event is Bell,
    {
    }

    /// Every request of the terminal is answered in kind: text to the pty byte
    /// by byte, a color by its override or else its default, the size by the
    /// grid, a clipboard by the one that was named; and nothing is done
    /// unasked.
    pub proof fn events_are_answered(
        self,
        event: TermEvent,
        slots: Seq<Option<(u8, u8, u8)>>,
        palette: Palette,
        after: TerminalApp,
        out: (Effect, bool),
    )
        requires
            self.event_acts(event, slots, palette, after, out),
        ensures
            out.0 is Exit <==> event is PtyClosed,
            out.0 is Flash <==> event is Bell,
            out.0 is Write <==> event is PtyWrite,
            event matches TermEvent::PtyWrite(text) ==> out.0->Write_0@ == vstd::utf8::encode_utf8(
                text@,
            ),
            out.0 is ReplyColor <==> event is ColorRequest,
            event matches TermEvent::ColorRequest(index) ==> match slots[index as int] {
                Some((r, g, b)) => out.0 == Effect::ReplyColor(Rgb { r, g, b }),
                None => out.0 == Effect::ReplyColor(
                    crate::colors::slot_default(index as int, palette),
                ),
            },
            out.0 is ReplySize <==> event is TextAreaSizeRequest,
            event is TextAreaSizeRequest ==> out.0 == (Effect::ReplySize {
                rows: self.rows,
                cols: self.cols,
            }),
            out.0 is Store <==> event is ClipboardStore,
            event matches TermEvent::ClipboardStore(which, text) ==> out.0 == Effect::Store(
                which,
                text,
            ),
            out.0 is Load <==> event is ClipboardLoad,
            event matches TermEvent::ClipboardLoad(which) ==> out.0 == Effect::Load(which),
    {
    }
}

} // verus!
