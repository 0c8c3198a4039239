//! Key presses as terminal bytes.

use vstd::prelude::*;
use vstd::string::*;

use crate::digits::push_decimal;
use crate::mode::TermMode;

verus! {

/// Whether a key or button went down or up.
#[derive(Clone, Copy, Debug, PartialEq, Eq, Structural)]
pub enum ElementState {
    Pressed,
    Released,
}

/// The keys without a character that matter here.
#[derive(Clone, Copy, Debug, PartialEq, Eq, Structural)]
pub enum NamedKey {
    ArrowUp,
    ArrowDown,
    ArrowRight,
    ArrowLeft,
    Home,
    End,
    PageUp,
    PageDown,
    Delete,
    F5,
    Enter,
    Backspace,
    Tab,
    Escape,
    Space,
    Shift,
    Control,
    Alt,
    /// Any other named key.
    Other,
}

/// What a key means in the current layout.
#[derive(Clone, Debug)]
pub enum Key {
    Named(NamedKey),
    Character(String),
}

/// A key going down or up, with the modifiers held.
#[derive(Clone, Debug)]
pub struct KeyEvent {
    pub state: ElementState,
    pub logical_key: Key,
    pub text: Option<String>,
    pub repeat: bool,
    pub ctrl: bool,
    pub shift: bool,
    pub alt: bool,
}

/// The forms that the bytes of a named key take.
#[derive(Clone, Copy, Debug, PartialEq, Eq, Structural)]
pub enum Encoding {
    /// `ESC [ final`, `ESC O final` in application mode, `ESC [ 1 ; m final`.
    Csi(u8),
    /// `ESC [ n ~`, `ESC [ n ; m ~`.
    Tilde(u8),
    /// One byte, with ESC before it when alt is held.
    Plain(u8),
}

/// The form that a named key's bytes take, if it sends any.
pub open spec fn named_encoding(key: NamedKey, ctrl: bool) -> Option<Encoding> {
    match key {
        NamedKey::ArrowUp => Some(Encoding::Csi('A' as u8)),
        NamedKey::ArrowDown => Some(Encoding::Csi('B' as u8)),
        NamedKey::ArrowRight => Some(Encoding::Csi('C' as u8)),
        NamedKey::ArrowLeft => Some(Encoding::Csi('D' as u8)),
        NamedKey::Home => Some(Encoding::Csi('H' as u8)),
        NamedKey::End => Some(Encoding::Csi('F' as u8)),
        NamedKey::PageUp => Some(Encoding::Tilde(5)),
        NamedKey::PageDown => Some(Encoding::Tilde(6)),
        NamedKey::Delete => Some(Encoding::Tilde(3)),
        NamedKey::F5 => Some(Encoding::Tilde(15)),
        NamedKey::Enter => Some(Encoding::Plain(0x0d)),
        NamedKey::Backspace => Some(Encoding::Plain(0x7f)),
        NamedKey::Tab => Some(Encoding::Plain(0x09)),
        NamedKey::Escape => Some(Encoding::Plain(0x1b)),
        NamedKey::Space => Some(
            Encoding::Plain(
                if ctrl {
                    0x00
                } else {
                    0x20
                },
            ),
        ),
        NamedKey::Shift | NamedKey::Control | NamedKey::Alt | NamedKey::Other => None,
    }
}

/// The xterm modifier parameter: 1, and 1 for shift, 2 for alt, 4 for ctrl.
pub open spec fn modifier_param(shift: bool, alt: bool, ctrl: bool) -> nat {
    1 + if shift {
        1nat
    } else {
        0
    } + if alt {
        2nat
    } else {
        0
    } + if ctrl {
        4nat
    } else {
        0
    }
}

/// The bytes of a form, with the modifier parameter `m`.
pub open spec fn encoded(encoding: Encoding, m: nat, app_cursor: bool, alt: bool) -> Seq<u8> {
    match encoding {
        Encoding::Csi(last) => if m > 1 {
            seq![0x1bu8, '[' as u8, '1' as u8, ';' as u8] + crate::digits::decimal(m) + seq![last]
        } else if app_cursor {
            seq![0x1bu8, 'O' as u8, last]
        } else {
            seq![0x1bu8, '[' as u8, last]
        },
        Encoding::Tilde(n) => if m > 1 {
            seq![0x1bu8, '[' as u8] + crate::digits::decimal(n as nat) + seq![';' as u8]
                + crate::digits::decimal(m) + seq!['~' as u8]
        } else {
            seq![0x1bu8, '[' as u8] + crate::digits::decimal(n as nat) + seq!['~' as u8]
        },
        Encoding::Plain(byte) => alt_prefix(alt) + seq![byte],
    }
}

/// ESC when alt is held.
pub open spec fn alt_prefix(alt: bool) -> Seq<u8> {
    if alt {
        seq![0x1bu8]
    } else {
        Seq::empty()
    }
}

/// The control byte of a character, if it has one.
pub open spec fn control_byte(c: char) -> Option<u8> {
    if 'a' <= c <= 'z' {
        Some((c as u32 - 'a' as u32 + 1) as u8)
    } else if 'A' <= c <= 'Z' {
        Some((c as u32 - 'A' as u32 + 1) as u8)
    } else if c == '[' {
        Some(0x1b)
    } else if c == '\\' {
        Some(0x1c)
    } else if c == ']' {
        Some(0x1d)
    } else {
        None
    }
}

/// The bytes of a character key without alt: the control byte of its first
/// character under ctrl, else the text that the key event carries, else the
/// key's own characters.
pub open spec fn character_bytes(key: Seq<char>, text: Option<String>, ctrl: bool) -> Option<
    Seq<u8>,
> {
    if ctrl {
        if key.len() == 0 {
            None
        } else {
            match control_byte(key[0]) {
                Some(byte) => Some(seq![byte]),
                None => None,
            }
        }
    } else {
        match text {
            Some(text) => Some(vstd::utf8::encode_utf8(text@)),
            None => Some(vstd::utf8::encode_utf8(key)),
        }
    }
}

/// The bytes that a key press sends, if any.
pub open spec fn key_bytes(event: KeyEvent, app_cursor: bool) -> Option<Seq<u8>> {
    match event.logical_key {
        Key::Named(key) => if key == NamedKey::Tab && event.shift {
            Some(seq![0x1bu8, '[' as u8, 'Z' as u8])
        } else {
            match named_encoding(key, event.ctrl) {
                Some(encoding) => Some(
                    encoded(
                        encoding,
                        modifier_param(event.shift, event.alt, event.ctrl),
                        app_cursor,
                        event.alt,
                    ),
                ),
                None => None,
            }
        },
        Key::Character(key) => match character_bytes(key@, event.text, event.ctrl) {
            Some(bytes) => Some(alt_prefix(event.alt) + bytes),
            None => None,
        },
    }
}

/// The bytes that a key press sends under the terminal's modes, if any.
pub open spec fn sent_under(event: KeyEvent, mode: TermMode) -> Option<Seq<u8>> {
    key_bytes(event, mode.app_cursor)
}

fn encoding_of(key: NamedKey, ctrl: bool) -> (encoding: Option<Encoding>)
    ensures
        encoding == named_encoding(key, ctrl),
{
    match key {
        NamedKey::ArrowUp => Some(Encoding::Csi('A' as u8)),
        NamedKey::ArrowDown => Some(Encoding::Csi('B' as u8)),
        NamedKey::ArrowRight => Some(Encoding::Csi('C' as u8)),
        NamedKey::ArrowLeft => Some(Encoding::Csi('D' as u8)),
        NamedKey::Home => Some(Encoding::Csi('H' as u8)),
        NamedKey::End => Some(Encoding::Csi('F' as u8)),
        NamedKey::PageUp => Some(Encoding::Tilde(5)),
        NamedKey::PageDown => Some(Encoding::Tilde(6)),
        NamedKey::Delete => Some(Encoding::Tilde(3)),
        NamedKey::F5 => Some(Encoding::Tilde(15)),
        NamedKey::Enter => Some(Encoding::Plain(0x0d)),
        NamedKey::Backspace => Some(Encoding::Plain(0x7f)),
        NamedKey::Tab => Some(Encoding::Plain(0x09)),
        NamedKey::Escape => Some(Encoding::Plain(0x1b)),
        NamedKey::Space => {
            if ctrl {
                Some(Encoding::Plain(0x00))
            } else {
                Some(Encoding::Plain(0x20))
            }
        },
        NamedKey::Shift | NamedKey::Control | NamedKey::Alt | NamedKey::Other => None,
    }
}

fn encode(encoding: Encoding, m: usize, app_cursor: bool, alt: bool) -> (bytes: Vec<u8>)
    ensures
        bytes@ == encoded(encoding, m as nat, app_cursor, alt),
{
    let mut bytes: Vec<u8> = Vec::new();
    match encoding {
        Encoding::Csi(last) => {
            bytes.push(0x1b);
            if m > 1 {
                bytes.push('[' as u8);
                bytes.push('1' as u8);
                bytes.push(';' as u8);
                push_decimal(&mut bytes, m);
            } else if app_cursor {
                bytes.push('O' as u8);
            } else {
                bytes.push('[' as u8);
            }
            bytes.push(last);
        },
        Encoding::Tilde(n) => {
            bytes.push(0x1b);
            bytes.push('[' as u8);
            push_decimal(&mut bytes, n as usize);
            if m > 1 {
                bytes.push(';' as u8);
                push_decimal(&mut bytes, m);
            }
            bytes.push('~' as u8);
        },
        Encoding::Plain(byte) => {
            if alt {
                bytes.push(0x1b);
            }
            bytes.push(byte);
        },
    }
    assert(bytes@ =~= encoded(encoding, m as nat, app_cursor, alt));
    bytes
}

fn control(c: char) -> (byte: Option<u8>)
    ensures
        byte == control_byte(c),
{
    if 'a' <= c && c <= 'z' {
        Some(c as u8 - 'a' as u8 + 1)
    } else if 'A' <= c && c <= 'Z' {
        Some(c as u8 - 'A' as u8 + 1)
    } else if c == '[' {
        Some(0x1b)
    } else if c == '\\' {
        Some(0x1c)
    } else if c == ']' {
        Some(0x1d)
    } else {
        None
    }
}

/// The terminal bytes of a key press; `None` when there is nothing to send.
/// Application cursor keys and the modifier parameter shape the CSI keys; alt
/// puts ESC before everything else.
pub fn encode_key(event: &KeyEvent, mode: TermMode) -> (bytes: Option<Vec<u8>>)
    ensures
        match bytes {
            Some(bytes) => sent_under(*event, mode) == Some(bytes@),
            None => sent_under(*event, mode) is None,
        },
{
    match &event.logical_key {
        Key::Named(key) => {
            if *key == NamedKey::Tab && event.shift {
                let mut bytes: Vec<u8> = Vec::new();
                bytes.push(0x1b);
                bytes.push('[' as u8);
                bytes.push('Z' as u8);
                assert(bytes@ =~= seq![0x1bu8, '[' as u8, 'Z' as u8]);
                return Some(bytes);
            }
            let mut m: usize = 1;
            if event.shift {
                m = m + 1;
            }
            if event.alt {
                m = m + 2;
            }
            if event.ctrl {
                m = m + 4;
            }
            match encoding_of(*key, event.ctrl) {
                Some(encoding) => Some(encode(encoding, m, mode.app_cursor, event.alt)),
                None => None,
            }
        },
        Key::Character(key) => {
            let mut bytes: Vec<u8> = Vec::new();
            if event.alt {
                bytes.push(0x1b);
            }
            assert(bytes@ =~= alt_prefix(event.alt));
            if event.ctrl {
                if key.as_str().is_empty() {
                    return None;
                }
                match control(key.as_str().get_char(0)) {
                    Some(byte) => {
                        bytes.push(byte);
                        assert(bytes@ =~= alt_prefix(event.alt) + seq![byte]);
                    },
                    None => {
                        return None;
                    },
                }
            } else {
                let text = match &event.text {
                    Some(text) => text.as_str().as_bytes(),
                    None => key.as_str().as_bytes(),
                };
                bytes.extend_from_slice(text);
                assert(bytes@ =~= alt_prefix(event.alt) + text@);
            }
            Some(bytes)
        },
    }
}

/// The event is of a key whose bytes carry the modifier parameter.
pub open spec fn carries_parameter(event: KeyEvent) -> bool {
    event.logical_key matches Key::Named(key) && (named_encoding(key, event.ctrl) matches Some(
        encoding,
    ) && !(encoding is Plain))
}

/// Alt puts ESC before what the key sends without it, and makes no key silent
/// or heard; the exceptions are the keys with a modifier parameter, and
/// backtab, which no other modifier changes.
pub proof fn alt_prefixes_escape(event: KeyEvent, app_cursor: bool)
    requires
        event.alt,
        !carries_parameter(event),
        !(event.logical_key == Key::Named(NamedKey::Tab) && event.shift),
    ensures
        match key_bytes((KeyEvent { alt: false, ..event }), app_cursor) {
            Some(bytes) => key_bytes(event, app_cursor) == Some(seq![0x1bu8] + bytes),
            None => key_bytes(event, app_cursor) is None,
        },
{
    let without = KeyEvent { alt: false, ..event };
    match event.logical_key {
        Key::Named(key) => {
            if let Some(Encoding::Plain(byte)) = named_encoding(key, event.ctrl) {
                assert(Seq::<u8>::empty() + seq![byte] =~= seq![byte]);
            }
        },
        Key::Character(key) => {
            if let Some(bytes) = character_bytes(key@, event.text, event.ctrl) {
                assert(Seq::<u8>::empty() + bytes =~= bytes);
            }
        },
    }
}

/// Application cursor mode changes CSI keys without modifiers and no others.
pub proof fn app_cursor_spares_modified_keys(event: KeyEvent)
    requires
        event.shift || event.alt || event.ctrl || !carries_parameter(event),
    ensures
        key_bytes(event, true) == key_bytes(event, false),
{
}

/// The modifier parameter tells which modifiers were held.
pub proof fn modifier_param_tells_modifiers(
    shift1: bool,
    alt1: bool,
    ctrl1: bool,
    shift2: bool,
    alt2: bool,
    ctrl2: bool,
)
    requires
        modifier_param(shift1, alt1, ctrl1) == modifier_param(shift2, alt2, ctrl2),
    ensures
        shift1 == shift2,
        alt1 == alt2,
        ctrl1 == ctrl2,
{
}

/// What a key sends does not depend on whether its press is a repeat, nor is
/// it asked here whether it went down or up.
pub proof fn repeats_send_the_same(
    event: KeyEvent,
    repeat: bool,
    state: ElementState,
    app_cursor: bool,
)
    ensures
        key_bytes((KeyEvent { repeat, state, ..event }), app_cursor) == key_bytes(
            event,
            app_cursor,
        ),
{
}

/// A character key without ctrl always sends its text, as UTF-8: the text that
/// came with the event, or else what is on the key; after ESC with alt. Shift
/// and the cursor mode have no part in it.
pub proof fn characters_send_their_text(event: KeyEvent, key: String, app_cursor: bool)
    requires
        event.logical_key == Key::Character(key),
        !event.ctrl,
    ensures
        key_bytes(event, app_cursor) is Some,
        ({
            let text = match event.text {
                Some(text) => vstd::utf8::encode_utf8(text@),
                None => vstd::utf8::encode_utf8(key@),
            };
            let sent = key_bytes(event, app_cursor)->0;
            if event.alt {
                sent.len() == text.len() + 1 && sent[0] == 0x1b && sent.skip(1) == text
            } else {
                sent == text
            }
        }),
{
    let text = match event.text {
        Some(text) => vstd::utf8::encode_utf8(text@),
        None => vstd::utf8::encode_utf8(key@),
    };
    assert((seq![0x1bu8] + text).skip(1) =~= text);
    assert(Seq::<u8>::empty() + text =~= text);
}

/// Under ctrl a character key sends one control byte, by its first character
/// alone: the letters 1 to 26 in order, whatever their case, then ESC, FS and
/// GS for the bracket, the backslash and the closing bracket; after ESC with
/// alt. Every other character is silent.
pub proof fn control_characters(event: KeyEvent, key: String, app_cursor: bool)
    requires
        event.logical_key == Key::Character(key),
        event.ctrl,
    ensures
        ({
            let sent = key_bytes(event, app_cursor);
            let c = key@[0] as int;
            let lower = 'a' as int <= c <= 'z' as int;
            let upper = 'A' as int <= c <= 'Z' as int;
            let sign = '[' as int <= c <= ']' as int;
            &&& sent is Some <==> key@.len() > 0 && (lower || upper || sign)
            &&& sent matches Some(bytes) ==> {
                &&& bytes.len() == if event.alt {
                    2int
                } else {
                    1
                }
                &&& event.alt ==> bytes[0] == 0x1b
                &&& lower ==> bytes.last() == c - 'a' as int + 1
                &&& upper ==> bytes.last() == c - 'A' as int + 1
                &&& sign ==> bytes.last() == c - '[' as int + 27
            }
        }),
{
    if key@.len() > 0 {
        if let Some(byte) = control_byte(key@[0]) {
            assert((seq![0x1bu8] + seq![byte]).last() == byte);
            assert((Seq::<u8>::empty() + seq![byte]).last() == byte);
        }
    }
}

/// Only the modifier keys and the keys that have no bytes here are silent
/// among the named ones; the text of the event has no part in what they send.
pub proof fn named_keys_are_heard(
    event: KeyEvent,
    key: NamedKey,
    text: Option<String>,
    app_cursor: bool,
)
    requires
        event.logical_key == Key::Named(key),
    ensures
        key_bytes(event, app_cursor) is None <==> key == NamedKey::Shift || key
            == NamedKey::Control || key == NamedKey::Alt || key == NamedKey::Other,
        key_bytes((KeyEvent { text, ..event }), app_cursor) == key_bytes(event, app_cursor),
{
}

/// The modifiers held count 1 for shift, 2 for alt and 4 for ctrl; one more is
/// the digit that a sequence carries.
pub open spec fn held_digit(event: KeyEvent) -> int {
    let shift: int = if event.shift {
        1
    } else {
        0
    };
    let alt: int = if event.alt {
        2
    } else {
        0
    };
    let ctrl: int = if event.ctrl {
        4
    } else {
        0
    };
    '1' as int + shift + alt + ctrl
}

/// Arrows, Home and End send `ESC [` or, in application cursor mode, `ESC O`,
/// and a letter; with modifiers held they send `ESC [ 1 ;`, the modifiers'
/// digit and the same letter in either mode.
pub proof fn modifiers_go_into_cursor_keys(event: KeyEvent, key: NamedKey)
    requires
        event.logical_key == Key::Named(key),
        key == NamedKey::ArrowUp || key == NamedKey::ArrowDown || key == NamedKey::ArrowRight || key
            == NamedKey::ArrowLeft || key == NamedKey::Home || key == NamedKey::End,
    ensures
        ({
            let bare = KeyEvent { shift: false, alt: false, ctrl: false, ..event };
            let normal = key_bytes(bare, false)->0;
            let app = key_bytes(bare, true)->0;
            &&& normal.len() == 3 && normal[0] == 0x1b && normal[1] == '[' as u8
            &&& app.len() == 3 && app[0] == 0x1b && app[1] == 'O' as u8 && app[2] == normal[2]
            &&& normal[2] == if key == NamedKey::ArrowUp {
                'A' as u8
            } else if key == NamedKey::ArrowDown {
                'B' as u8
            } else if key == NamedKey::ArrowRight {
                'C' as u8
            } else if key == NamedKey::ArrowLeft {
                'D' as u8
            } else if key == NamedKey::Home {
                'H' as u8
            } else {
                'F' as u8
            }
            &&& event.shift || event.alt || event.ctrl ==> forall|app_cursor: bool|
                #![trigger key_bytes(event, app_cursor)]
                key_bytes(event, app_cursor) == Some(
                    seq![
                        0x1bu8,
                        '[' as u8,
                        '1' as u8,
                        ';' as u8,
                        held_digit(event) as u8,
                        normal[2],
                    ],
                )
        }),
{
    if event.shift || event.alt || event.ctrl {
        let last = match named_encoding(key, event.ctrl) {
            Some(Encoding::Csi(last)) => last,
            _ => 0,
        };
        let m = modifier_param(event.shift, event.alt, event.ctrl);
        assert(crate::digits::decimal(m) =~= seq![held_digit(event) as u8]);
        assert(seq![0x1bu8, '[' as u8, '1' as u8, ';' as u8] + seq![held_digit(event) as u8]
            + seq![last] =~= seq![
            0x1bu8,
            '[' as u8,
            '1' as u8,
            ';' as u8,
            held_digit(event) as u8,
            last,
        ]);
    }
}

/// The paging keys, Delete and F5 send `ESC [`, their number and `~` in either
/// cursor mode; with modifiers held a semicolon and the modifiers' digit come
/// before the `~`.
pub proof fn modifiers_go_into_numbered_keys(event: KeyEvent, key: NamedKey, app_cursor: bool)
    requires
        event.logical_key == Key::Named(key),
        key == NamedKey::PageUp || key == NamedKey::PageDown || key == NamedKey::Delete || key
            == NamedKey::F5,
    ensures
        ({
            let bare = KeyEvent { shift: false, alt: false, ctrl: false, ..event };
            let normal = key_bytes(bare, app_cursor)->0;
            let number = if key == NamedKey::PageUp {
                seq!['5' as u8]
            } else if key == NamedKey::PageDown {
                seq!['6' as u8]
            } else if key == NamedKey::Delete {
                seq!['3' as u8]
            } else {
                seq!['1' as u8, '5' as u8]
            };
            &&& normal == seq![0x1bu8, '[' as u8] + number + seq!['~' as u8]
            &&& event.shift || event.alt || event.ctrl ==> key_bytes(event, app_cursor) == Some(
                normal.drop_last() + seq![';' as u8, held_digit(event) as u8, '~' as u8],
            )
        }),
{
    let bare = KeyEvent { shift: false, alt: false, ctrl: false, ..event };
    let n: nat = match named_encoding(key, event.ctrl) {
        Some(Encoding::Tilde(n)) => n as nat,
        _ => 0,
    };
    crate::digits::decimal_appends_digits(1, 5);
    assert(crate::digits::decimal(15) =~= seq!['1' as u8, '5' as u8]) by {
        crate::digits::decimal_appends_digits(1, 1);
    }
    let normal = key_bytes(bare, app_cursor)->0;
    let m = modifier_param(event.shift, event.alt, event.ctrl);
    assert(crate::digits::decimal(m) =~= seq![held_digit(event) as u8]);
    assert(normal.drop_last() =~= seq![0x1bu8, '[' as u8] + crate::digits::decimal(n));
    assert(normal.drop_last() + seq![';' as u8, held_digit(event) as u8, '~' as u8] =~= seq![
        0x1bu8,
        '[' as u8,
    ] + crate::digits::decimal(n) + seq![';' as u8] + crate::digits::decimal(m) + seq!['~' as u8]);
}

/// Enter, Backspace, Tab, Escape and Space send one byte, after ESC with alt,
/// in either cursor mode. Shift matters to Tab alone, which it turns into
/// backtab whatever else is held, and ctrl to Space alone, which it turns into
/// NUL.
pub proof fn plain_keys_send_one_byte(event: KeyEvent, key: NamedKey, app_cursor: bool)
    requires
        event.logical_key == Key::Named(key),
        key == NamedKey::Enter || key == NamedKey::Backspace || key == NamedKey::Tab || key
            == NamedKey::Escape || key == NamedKey::Space,
    ensures
        ({
            let byte: u8 = if key == NamedKey::Enter {
                13
            } else if key == NamedKey::Backspace {
                127
            } else if key == NamedKey::Tab {
                9
            } else if key == NamedKey::Escape {
                27
            } else if event.ctrl {
                0
            } else {
                32
            };
            key_bytes(event, app_cursor) == if key == NamedKey::Tab && event.shift {
                Some(seq![27u8, 91u8, 90u8])
            } else if event.alt {
                Some(seq![27u8, byte])
            } else {
                Some(seq![byte])
            }
        }),
{
    if let Some(Encoding::Plain(byte)) = named_encoding(key, event.ctrl) {
        assert(seq![0x1bu8] + seq![byte] =~= seq![0x1bu8, byte]);
        assert(Seq::<u8>::empty() + seq![byte] =~= seq![byte]);
    }
}

/// Of all modes only the cursor mode changes what a key sends.
pub proof fn only_the_cursor_mode_matters(event: KeyEvent, mode: TermMode, other: TermMode)
    ensures
        mode.app_cursor == other.app_cursor ==> sent_under(event, mode) == sent_under(event, other),
        sent_under(event, mode) == key_bytes(event, mode.app_cursor),
{
}

} // verus!
