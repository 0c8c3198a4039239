//! The terminal modes that the running application has switched on.

use alacritty_terminal::term::TermMode as Modes;
use vstd::prelude::*;

verus! {

/// The modes that input handling and painting ask about.
#[derive(Clone, Copy, Debug, PartialEq, Eq, Structural)]
pub struct TermMode {
    pub show_cursor: bool,
    pub app_cursor: bool,
    pub mouse_report_click: bool,
    pub bracketed_paste: bool,
    pub sgr_mouse: bool,
    pub mouse_motion: bool,
    pub focus_in_out: bool,
    pub alt_screen: bool,
    pub mouse_drag: bool,
    pub utf8_mouse: bool,
    pub alternate_scroll: bool,
}

/// The modes that a word of mode flags holds.
pub open spec fn modes_of(bits: u32) -> TermMode {
    TermMode {
        show_cursor: bits & 0x1 == 0x1,
        app_cursor: bits & 0x2 == 0x2,
        mouse_report_click: bits & 0x8 == 0x8,
        bracketed_paste: bits & 0x10 == 0x10,
        sgr_mouse: bits & 0x20 == 0x20,
        mouse_motion: bits & 0x40 == 0x40,
        focus_in_out: bits & 0x800 == 0x800,
        alt_screen: bits & 0x1000 == 0x1000,
        mouse_drag: bits & 0x2000 == 0x2000,
        utf8_mouse: bits & 0x4000 == 0x4000,
        alternate_scroll: bits & 0x8000 == 0x8000,
    }
}

/// Asks `alacritty_terminal::term::TermMode::contains` for every mode: each
/// flag is one bit of the word, and it is contained when that bit is set.
#[verifier::external_body]
fn contained_modes(bits: u32) -> (modes: TermMode)
    ensures
        modes == modes_of(bits),
{
    let m = Modes::from_bits_retain(bits);
    TermMode {
        show_cursor: m.contains(Modes::SHOW_CURSOR),
        app_cursor: m.contains(Modes::APP_CURSOR),
        mouse_report_click: m.contains(Modes::MOUSE_REPORT_CLICK),
        bracketed_paste: m.contains(Modes::BRACKETED_PASTE),
        sgr_mouse: m.contains(Modes::SGR_MOUSE),
        mouse_motion: m.contains(Modes::MOUSE_MOTION),
        focus_in_out: m.contains(Modes::FOCUS_IN_OUT),
        alt_screen: m.contains(Modes::ALT_SCREEN),
        mouse_drag: m.contains(Modes::MOUSE_DRAG),
        utf8_mouse: m.contains(Modes::UTF8_MOUSE),
        alternate_scroll: m.contains(Modes::ALTERNATE_SCROLL),
    }
}

impl TermMode {
    /// No mode at all.
    pub fn empty() -> (modes: TermMode)
        ensures
            modes == (TermMode {
                show_cursor: false,
                app_cursor: false,
                mouse_report_click: false,
                bracketed_paste: false,
                sgr_mouse: false,
                mouse_motion: false,
                focus_in_out: false,
                alt_screen: false,
                mouse_drag: false,
                utf8_mouse: false,
                alternate_scroll: false,
            }),
            modes == modes_of(0),
    {
        assert(forall|flag: u32| flag != 0 ==> #[trigger] (0u32 & flag) != flag) by (bit_vector);
        TermMode {
            show_cursor: false,
            app_cursor: false,
            mouse_report_click: false,
            bracketed_paste: false,
            sgr_mouse: false,
            mouse_motion: false,
            focus_in_out: false,
            alt_screen: false,
            mouse_drag: false,
            utf8_mouse: false,
            alternate_scroll: false,
        }
    }

    /// The modes that a word of mode flags holds.
    pub fn from_bits(bits: u32) -> (modes: TermMode)
        ensures
            modes == modes_of(bits),
    {
        contained_modes(bits)
    }

    /// Some mouse mode is on: clicks, drags or all motion are to be reported.
    pub open spec fn wants_mouse(self) -> bool {
        self.mouse_report_click || self.mouse_motion || self.mouse_drag
    }

    /// Some mouse mode is on.
    pub fn mouse_mode(&self) -> (on: bool)
        ensures
            on == self.wants_mouse(),
    {
        self.mouse_report_click || self.mouse_motion || self.mouse_drag
    }
}

/// Each mode is one bit of the word, and a word that has the bits of two has
/// the modes of both.
pub proof fn modes_are_bits(a: u32, b: u32)
    ensures
        ({
            let both = modes_of(a | b);
            &&& both.show_cursor == (modes_of(a).show_cursor || modes_of(b).show_cursor)
            &&& both.app_cursor == (modes_of(a).app_cursor || modes_of(b).app_cursor)
            &&& both.mouse_report_click == (modes_of(a).mouse_report_click || modes_of(
                b,
            ).mouse_report_click)
            &&& both.bracketed_paste == (modes_of(a).bracketed_paste || modes_of(b).bracketed_paste)
            &&& both.sgr_mouse == (modes_of(a).sgr_mouse || modes_of(b).sgr_mouse)
            &&& both.mouse_motion == (modes_of(a).mouse_motion || modes_of(b).mouse_motion)
            &&& both.focus_in_out == (modes_of(a).focus_in_out || modes_of(b).focus_in_out)
            &&& both.alt_screen == (modes_of(a).alt_screen || modes_of(b).alt_screen)
            &&& both.mouse_drag == (modes_of(a).mouse_drag || modes_of(b).mouse_drag)
            &&& both.utf8_mouse == (modes_of(a).utf8_mouse || modes_of(b).utf8_mouse)
            &&& both.alternate_scroll == (modes_of(a).alternate_scroll || modes_of(
                b,
            ).alternate_scroll)
            &&& both.wants_mouse() == (modes_of(a).wants_mouse() || modes_of(b).wants_mouse())
        }),
{
    assert(forall|flag: u32|
        flag == 0x1 || flag == 0x2 || flag == 0x8 || flag == 0x10 || flag == 0x20 || flag == 0x40
            || flag == 0x800 || flag == 0x1000 || flag == 0x2000 || flag == 0x4000 || flag
            == 0x8000 ==> (#[trigger] ((a | b) & flag) == flag) == (a & flag == flag || b & flag
            == flag)) by (bit_vector);
}

} // verus!
