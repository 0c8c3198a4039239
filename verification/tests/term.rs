use cce_terminal::term::{Screen, MAX_SCROLLBACK};

fn text(s: &Screen) -> Vec<String> {
    s.visible(s.line_count(), 0).iter().map(|l| l.iter().collect()).collect()
}

#[test]
fn plain_lines() {
    let mut s = Screen::new();
    s.feed(b"hello\r\nworld");
    assert_eq!(text(&s), vec!["hello", "world"]);
    assert_eq!(s.cursor_col, 5);
}

#[test]
fn carriage_return_overwrites() {
    let mut s = Screen::new();
    s.feed(b"abcdef\rXY");
    assert_eq!(text(&s), vec!["XYcdef"]);
}

#[test]
fn csi_swallowed_and_erase_line() {
    let mut s = Screen::new();
    s.feed(b"ab\x1b[31mcd\x1b[0m");
    assert_eq!(text(&s), vec!["abcd"]);
    s.feed(b"\rZ\x1b[K");
    assert_eq!(text(&s), vec!["Z"]);
}

#[test]
fn osc_swallowed() {
    let mut s = Screen::new();
    s.feed(b"\x1b]0;title\x07ok\x1b]2;t\x1b\\!");
    assert_eq!(text(&s), vec!["ok!"]);
}

#[test]
fn split_utf8_across_feeds() {
    let mut s = Screen::new();
    let bytes = "héllo".as_bytes();
    s.feed(&bytes[..2]); // 'h' + first byte of é
    s.feed(&bytes[2..]);
    assert_eq!(text(&s), vec!["héllo"]);
}

#[test]
fn backspace_and_tab() {
    let mut s = Screen::new();
    s.feed(b"ab\x08X\tY");
    // 'X' overwrites 'b' at col 1, tab jumps to col 8, 'Y' lands there.
    assert_eq!(text(&s), vec!["aX      Y"]);
}

#[test]
fn a_new_screen_has_one_empty_line() {
    let s = Screen::new();
    assert_eq!(s.line_count(), 1);
    assert_eq!(text(&s), vec![""]);
    assert_eq!(s.cursor_col, 0);
}

#[test]
fn line_feed_keeps_the_column() {
    let mut s = Screen::new();
    s.feed(b"ab\nc");
    assert_eq!(text(&s), vec!["ab", "  c"]);
}

#[test]
fn every_cut_of_a_stream_gives_the_same_screen() {
    let stream = "a\u{e9}\u{20ac}\u{1f600}\x1b[2Kq\x1b]0;t\u{e9}\x07z\r\nk\tm".as_bytes().to_vec();
    let mut bad = stream.clone();
    bad.extend_from_slice(&[0xf0, 0x9f, 0x41, 0xff, 0xe2, 0x82]);
    let mut whole = Screen::new();
    whole.feed(&bad);
    for cut in 0..bad.len() {
        let mut s = Screen::new();
        s.feed(&bad[..cut]);
        s.feed(&bad[cut..]);
        assert_eq!(text(&s), text(&whole));
        assert_eq!(s.cursor_col, whole.cursor_col);
    }
}

#[test]
fn malformed_bytes_become_replacement_characters() {
    for bytes in [
        &[0xffu8][..],
        &[0xc0, 0x80],
        &[0xe0, 0x80, 0x41],
        &[0xed, 0xa0, 0x80],
        &[0xf0, 0x9f, 0x41],
        &[0xf4, 0x90, 0x80, 0x80],
        &[0x80, 0x41],
        &[0xe2, 0x82, 0xac],
    ] {
        let mut s = Screen::new();
        s.feed(bytes);
        assert_eq!(text(&s), vec![String::from_utf8_lossy(bytes).to_string()]);
    }
}

#[test]
fn a_cut_off_scalar_waits() {
    let mut s = Screen::new();
    s.feed(&[0xf0, 0x9f, 0x98]);
    assert_eq!(text(&s), vec![""]);
    s.feed(&[0x80]);
    assert_eq!(text(&s), vec!["\u{1f600}"]);
    // A byte that cannot continue it turns the waiting bytes into one mark.
    s.feed(&[0xf0, 0x9f, 0x98]);
    s.feed(b"x");
    assert_eq!(text(&s), vec!["\u{1f600}\u{fffd}x"]);
}

#[test]
fn clear_screen_needs_a_two_or_a_three() {
    let mut s = Screen::new();
    s.feed(b"one\r\ntwo\x1b[J");
    assert_eq!(text(&s), vec!["one", "two"]);
    s.feed(b"\x1b[2J");
    assert_eq!(text(&s), vec![""]);
    assert_eq!(s.cursor_col, 0);
    s.feed(b"x\x1b[3Jy");
    assert_eq!(text(&s), vec!["y"]);
}

#[test]
fn charset_selectors_take_one_character() {
    let mut s = Screen::new();
    s.feed(b"\x1b(Ba\x1b#8b\x1bcd");
    assert_eq!(text(&s), vec!["abd"]);
}

#[test]
fn backspace_stops_at_the_margin() {
    let mut s = Screen::new();
    s.feed(b"\x08\x08a\x07\x7fb");
    assert_eq!(text(&s), vec!["ab"]);
}

#[test]
fn scrollback_drops_the_oldest_lines() {
    let mut s = Screen::new();
    for i in 0..MAX_SCROLLBACK + 10 {
        s.feed(format!("{i}\r\n").as_bytes());
    }
    assert_eq!(s.line_count(), MAX_SCROLLBACK);
    let lines = text(&s);
    assert_eq!(lines[0], "11");
    assert_eq!(lines[MAX_SCROLLBACK - 1], "");
}

#[test]
fn visible_is_a_window_on_the_last_lines() {
    let mut s = Screen::new();
    s.feed(b"a\r\nb\r\nc\r\nd");
    let window = |rows: usize, offset: usize| -> Vec<String> {
        s.visible(rows, offset).iter().map(|l| l.iter().collect()).collect()
    };
    assert_eq!(window(2, 0), vec!["c", "d"]);
    assert_eq!(window(2, 1), vec!["b", "c"]);
    assert_eq!(window(2, 3), vec!["a"]);
    assert_eq!(window(2, 100), vec!["a"]);
    assert_eq!(window(100, 0), vec!["a", "b", "c", "d"]);
    assert!(window(0, 0).is_empty());
}
