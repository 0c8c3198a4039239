use alacritty_terminal::term::TermMode as Modes;
use cce_terminal::digits::push_decimal;
use cce_terminal::keys::{encode_key, ElementState, Key, KeyEvent, NamedKey};
use cce_terminal::mode::TermMode;
use cce_terminal::mouse::mouse_report_bytes;
use cce_terminal::paste::paste_bytes;

fn key(logical_key: Key, ctrl: bool, shift: bool, alt: bool) -> KeyEvent {
    let text = match &logical_key {
        Key::Character(s) if !ctrl && !alt => Some(s.clone()),
        _ => None,
    };
    KeyEvent { state: ElementState::Pressed, logical_key, text, repeat: false, ctrl, shift, alt }
}

fn named(k: NamedKey) -> KeyEvent {
    key(Key::Named(k), false, false, false)
}

fn mode(modes: Modes) -> TermMode {
    TermMode::from_bits(modes.bits())
}

#[test]
fn app_cursor_mode_switches_arrow_encoding() {
    let ev = key(Key::Named(NamedKey::ArrowUp), false, false, false);
    assert_eq!(encode_key(&ev, TermMode::empty()).unwrap(), b"\x1b[A");
    assert_eq!(encode_key(&ev, mode(Modes::APP_CURSOR)).unwrap(), b"\x1bOA");
}

#[test]
fn modifier_parameters_on_csi_keys() {
    let up = |c, s, a| key(Key::Named(NamedKey::ArrowUp), c, s, a);
    // alt = +2, ctrl = +4, shift = +1 on the xterm modifier parameter.
    assert_eq!(encode_key(&up(false, false, true), TermMode::empty()).unwrap(), b"\x1b[1;3A");
    assert_eq!(encode_key(&up(true, false, false), TermMode::empty()).unwrap(), b"\x1b[1;5A");
    assert_eq!(encode_key(&up(true, true, true), TermMode::empty()).unwrap(), b"\x1b[1;8A");
    // Modified keys keep CSI form even in app-cursor mode.
    assert_eq!(
        encode_key(&up(true, false, false), mode(Modes::APP_CURSOR)).unwrap(),
        b"\x1b[1;5A"
    );
    // Tilde keys carry the parameter after their number.
    let del = key(Key::Named(NamedKey::Delete), false, false, true);
    assert_eq!(encode_key(&del, TermMode::empty()).unwrap(), b"\x1b[3;3~");
}

#[test]
fn alt_prefixes_esc() {
    let b = key(Key::Character("b".into()), false, false, true);
    assert_eq!(encode_key(&b, TermMode::empty()).unwrap(), b"\x1bb");
    // ctrl+alt compose: ESC then the ctrl byte.
    let w = key(Key::Character("w".into()), true, false, true);
    assert_eq!(encode_key(&w, TermMode::empty()).unwrap(), vec![0x1b, 0x17]);
    // alt+backspace: readline backward-kill-word.
    let bs = key(Key::Named(NamedKey::Backspace), false, false, true);
    assert_eq!(encode_key(&bs, TermMode::empty()).unwrap(), vec![0x1b, 0x7f]);
    // shift+tab is backtab regardless of other state.
    let tab = key(Key::Named(NamedKey::Tab), false, true, false);
    assert_eq!(encode_key(&tab, TermMode::empty()).unwrap(), b"\x1b[Z");
}

#[test]
fn mouse_report_encodings() {
    let sgr = mode(Modes::MOUSE_REPORT_CLICK | Modes::SGR_MOUSE);
    // SGR: press 'M', release 'm', same button code, 1-based coords.
    assert_eq!(mouse_report_bytes(sgr, 0, true, 4, 2).unwrap(), b"\x1b[<0;5;3M");
    assert_eq!(mouse_report_bytes(sgr, 2, false, 0, 0).unwrap(), b"\x1b[<2;1;1m");
    // Legacy: +32 bytes, release collapses the button to 3.
    let legacy = mode(Modes::MOUSE_REPORT_CLICK);
    assert_eq!(
        mouse_report_bytes(legacy, 0, true, 4, 2).unwrap(),
        vec![0x1b, b'[', b'M', 32, 37, 35]
    );
    assert_eq!(
        mouse_report_bytes(legacy, 0, false, 4, 2).unwrap(),
        vec![0x1b, b'[', b'M', 35, 37, 35]
    );
    // Legacy coordinate saturation at byte 255.
    assert_eq!(mouse_report_bytes(legacy, 0, true, 300, 2).unwrap()[4], 255);
    // UTF-8 extended coords: col 200 → 233 → two-byte UTF-8.
    let utf8 = mode(Modes::MOUSE_REPORT_CLICK | Modes::UTF8_MOUSE);
    let bytes = mouse_report_bytes(utf8, 0, true, 199, 0).unwrap();
    assert_eq!(&bytes[4..], "\u{e8}\u{21}".to_string().as_bytes());
}

#[test]
fn paste_encoding() {
    assert_eq!(paste_bytes("a\nb\r\nc", false), b"a\rb\rc");
    assert_eq!(paste_bytes("hi\x1b[201~!", true), b"\x1b[200~hi!\x1b[201~");
}

#[test]
fn ctrl_chars_encode() {
    let c = key(Key::Character("c".into()), true, false, false);
    assert_eq!(encode_key(&c, TermMode::empty()).unwrap(), vec![0x03]);
    let a = key(Key::Character("a".into()), false, false, false);
    assert_eq!(encode_key(&a, TermMode::empty()).unwrap(), b"a");
}

#[test]
fn every_named_key_has_its_bytes() {
    for (k, bytes) in [
        (NamedKey::ArrowUp, &b"\x1b[A"[..]),
        (NamedKey::ArrowDown, b"\x1b[B"),
        (NamedKey::ArrowRight, b"\x1b[C"),
        (NamedKey::ArrowLeft, b"\x1b[D"),
        (NamedKey::Home, b"\x1b[H"),
        (NamedKey::End, b"\x1b[F"),
        (NamedKey::PageUp, b"\x1b[5~"),
        (NamedKey::PageDown, b"\x1b[6~"),
        (NamedKey::Delete, b"\x1b[3~"),
        (NamedKey::F5, b"\x1b[15~"),
        (NamedKey::Enter, b"\r"),
        (NamedKey::Backspace, b"\x7f"),
        (NamedKey::Tab, b"\t"),
        (NamedKey::Escape, b"\x1b"),
        (NamedKey::Space, b" "),
    ] {
        assert_eq!(encode_key(&named(k), TermMode::empty()).unwrap(), bytes);
    }
    for k in [NamedKey::Shift, NamedKey::Control, NamedKey::Alt, NamedKey::Other] {
        assert_eq!(encode_key(&named(k), TermMode::empty()), None);
    }
}

#[test]
fn special_keys_take_their_modifiers() {
    let empty = TermMode::empty();
    let f5 = key(Key::Named(NamedKey::F5), true, true, false);
    assert_eq!(encode_key(&f5, empty).unwrap(), b"\x1b[15;6~");
    // Backtab takes no modifier, alt or not.
    let backtab = key(Key::Named(NamedKey::Tab), true, true, true);
    assert_eq!(encode_key(&backtab, empty).unwrap(), b"\x1b[Z");
    let nul = key(Key::Named(NamedKey::Space), true, false, true);
    assert_eq!(encode_key(&nul, empty).unwrap(), vec![0x1b, 0x00]);
    // Application mode leaves tilde keys alone.
    assert_eq!(
        encode_key(&named(NamedKey::PageUp), mode(Modes::APP_CURSOR)).unwrap(),
        b"\x1b[5~"
    );
}

#[test]
fn characters_encode_by_their_text() {
    let empty = TermMode::empty();
    let mut composed = key(Key::Character("e".into()), false, false, false);
    composed.text = Some("é".into());
    assert_eq!(encode_key(&composed, empty).unwrap(), "é".as_bytes());
    composed.text = None;
    assert_eq!(encode_key(&composed, empty).unwrap(), b"e");
    for (s, byte) in [("A", 1), ("z", 26), ("[", 0x1b), ("\\", 0x1c), ("]", 0x1d)] {
        let ev = key(Key::Character(s.into()), true, false, false);
        assert_eq!(encode_key(&ev, empty).unwrap(), vec![byte]);
    }
    for s in ["1", "é", ""] {
        let ev = key(Key::Character(s.into()), true, false, false);
        assert_eq!(encode_key(&ev, empty), None);
    }
}

#[test]
fn reports_at_the_edges_of_their_encodings() {
    let plain = mode(Modes::MOUSE_REPORT_CLICK);
    assert_eq!(mouse_report_bytes(plain, 0, true, 221, 222).unwrap()[4..], [254, 255]);
    assert_eq!(mouse_report_bytes(plain, 0, true, 223, 60000).unwrap()[4..], [255, 255]);
    // Releases of different buttons look alike, their modifiers do not.
    assert_eq!(
        mouse_report_bytes(plain, 1, false, 0, 0),
        mouse_report_bytes(plain, 2, false, 0, 0)
    );
    assert_eq!(mouse_report_bytes(plain, 8, false, 0, 0).unwrap()[3], 32 + 11);
    let utf8 = mode(Modes::UTF8_MOUSE);
    assert_eq!(mouse_report_bytes(utf8, 0, true, 94, 95).unwrap()[4..], [127, 0xc2, 0x80]);
    let far = mouse_report_bytes(utf8, 0, true, 5000, 1982).unwrap();
    assert_eq!(far[4..], *"\u{7df}\u{7df}".as_bytes());
    // SGR goes first.
    let both = mode(Modes::UTF8_MOUSE | Modes::SGR_MOUSE);
    assert_eq!(mouse_report_bytes(both, 65, true, 9, 99).unwrap(), b"\x1b[<65;10;100M");
}

#[test]
fn a_paste_cannot_fake_its_end() {
    // Taking a marker out must not put another one together.
    assert_eq!(paste_bytes("\x1b[20\x1b[201~1~x", true), b"\x1b[200~x\x1b[201~");
    assert_eq!(paste_bytes("\x1b[201~\x1b[201~", true), b"\x1b[200~\x1b[201~");
    // Other markers and line breaks stay.
    assert_eq!(paste_bytes("\x1b[200~\r\n\n", true), b"\x1b[200~\x1b[200~\r\n\n\x1b[201~");
    assert_eq!(paste_bytes("é", true), "\x1b[200~é\x1b[201~".as_bytes());
}

#[test]
fn plain_pastes_keep_everything_but_line_feeds() {
    assert_eq!(paste_bytes("", false), b"");
    assert_eq!(paste_bytes("\r\r\n\n\r", false), b"\r\r\r\r");
    assert_eq!(paste_bytes("\x1b[201~é", false), "\x1b[201~é".as_bytes());
}

#[test]
fn every_mode_bit_is_told_apart() {
    assert_eq!(TermMode::from_bits(0), TermMode::empty());
    for (flag, read) in [
        (Modes::SHOW_CURSOR, (|m| m.show_cursor) as fn(TermMode) -> bool),
        (Modes::APP_CURSOR, |m| m.app_cursor),
        (Modes::MOUSE_REPORT_CLICK, |m| m.mouse_report_click),
        (Modes::BRACKETED_PASTE, |m| m.bracketed_paste),
        (Modes::SGR_MOUSE, |m| m.sgr_mouse),
        (Modes::MOUSE_MOTION, |m| m.mouse_motion),
        (Modes::FOCUS_IN_OUT, |m| m.focus_in_out),
        (Modes::ALT_SCREEN, |m| m.alt_screen),
        (Modes::MOUSE_DRAG, |m| m.mouse_drag),
        (Modes::UTF8_MOUSE, |m| m.utf8_mouse),
        (Modes::ALTERNATE_SCROLL, |m| m.alternate_scroll),
    ] {
        assert!(read(mode(flag)));
        assert!(!read(mode(!flag)));
        assert_eq!(mode(flag).mouse_mode(), flag.intersects(Modes::MOUSE_MODE));
    }
}

#[test]
fn mode_words_read_as_their_bits() {
    assert!(TermMode::from_bits(0x20).sgr_mouse);
    assert!(TermMode::from_bits(0x8000).alternate_scroll);
    assert!(TermMode::from_bits(0x2000).mouse_mode());
    assert!(!TermMode::from_bits(0x8020).mouse_mode());
}

#[test]
fn numbers_are_written_in_decimal() {
    for n in [0usize, 7, 10, 255, 1000, 65535, usize::MAX] {
        let mut out = vec![b'#'];
        push_decimal(&mut out, n);
        assert_eq!(out, format!("#{n}").into_bytes());
    }
}
