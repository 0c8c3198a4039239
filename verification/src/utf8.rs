//! Incremental UTF-8 decoding: a byte stream that arrives in chunks becomes
//! characters, malformed bytes become U+FFFD, and a scalar cut off at the end
//! of a chunk waits for the next one.

use vstd::prelude::*;
use vstd::utf8::*;

verus! {

/// `char::from_u32`: the character with this scalar value, if there is one.
pub assume_specification[ char::from_u32 ](i: u32) -> (c: Option<char>)
    ensures
        c == (if is_scalar(i) {
            Some(i as char)
        } else {
            None
        }),
;

/// `s` does not begin with a scalar yet, but further bytes could complete one.
pub open spec fn truncated(s: Seq<u8>) -> bool {
    &&& s.len() > 0
    &&& !valid_first_scalar(s)
    &&& exists|more: Seq<u8>| valid_first_scalar(#[trigger] (s + more))
}

/// How many bytes one U+FFFD stands for: the longest prefix that could still
/// have been completed to a scalar, and at least one byte.
pub open spec fn malformed_len(s: Seq<u8>) -> int {
    if s.len() >= 3 && truncated(s.take(3)) {
        3
    } else if s.len() >= 2 && truncated(s.take(2)) {
        2
    } else {
        1
    }
}

/// The bytes that the first decoded character of `s` takes.
pub open spec fn unit_len(s: Seq<u8>) -> int {
    if valid_first_scalar(s) {
        length_of_first_scalar(s)
    } else {
        malformed_len(s)
    }
}

/// The first decoded character of `s`.
pub open spec fn unit_char(s: Seq<u8>) -> char {
    if valid_first_scalar(s) {
        decode_first_scalar(s) as char
    } else {
        '\u{fffd}'
    }
}

/// The characters that the bytes decode to, and the cut-off scalar at the end.
pub open spec fn decode_stream(s: Seq<u8>) -> (Seq<char>, Seq<u8>)
    decreases s.len(),
{
    if s.len() == 0 || truncated(s) {
        (Seq::empty(), s)
    } else {
        let rest = decode_stream(s.skip(unit_len(s)));
        (seq![unit_char(s)] + rest.0, rest.1)
    }
}

/// Which second bytes a lead byte of three or four bytes admits.
spec fn second_byte_ok(b0: u8, b1: u8) -> bool {
    if b0 == 0xe0 {
        0xa0 <= b1 <= 0xbf
    } else if b0 == 0xed {
        0x80 <= b1 <= 0x9f
    } else if b0 == 0xf0 {
        0x90 <= b1 <= 0xbf
    } else if b0 == 0xf4 {
        0x80 <= b1 <= 0x8f
    } else {
        0x80 <= b1 <= 0xbf
    }
}

/// `valid_first_scalar` as ranges of bytes.
spec fn scalar_by_ranges(s: Seq<u8>) -> bool {
    ||| s.len() >= 1 && s[0] <= 0x7f
    ||| s.len() >= 2 && 0xc2 <= s[0] <= 0xdf && 0x80 <= s[1] <= 0xbf
    ||| s.len() >= 3 && 0xe0 <= s[0] <= 0xef && second_byte_ok(s[0], s[1]) && 0x80 <= s[2] <= 0xbf
    ||| s.len() >= 4 && 0xf0 <= s[0] <= 0xf4 && second_byte_ok(s[0], s[1]) && 0x80 <= s[2] <= 0xbf
        && 0x80 <= s[3] <= 0xbf
}

/// `truncated` as ranges of bytes.
spec fn truncated_by_ranges(s: Seq<u8>) -> bool {
    ||| s.len() == 1 && 0xc2 <= s[0] <= 0xf4
    ||| s.len() == 2 && 0xe0 <= s[0] <= 0xf4 && second_byte_ok(s[0], s[1])
    ||| s.len() == 3 && 0xf0 <= s[0] <= 0xf4 && second_byte_ok(s[0], s[1]) && 0x80 <= s[2] <= 0xbf
}

proof fn lemma_two_byte_range(b0: u8, b1: u8)
    requires
        0xc0 <= b0 <= 0xdf,
        0x80 <= b1 <= 0xbf,
    ensures
        not_overlong_encoding(codepoint_width_2(b0, b1), 2) == (0xc2 <= b0),
        not_surrogate(codepoint_width_2(b0, b1)),
        codepoint_width_2(b0, b1) < 0x800,
{
    assert(0xc0 <= b0 <= 0xdf && 0x80 <= b1 <= 0xbf ==> {
        &&& (0x80 <= (((b0 & 0x1fu8) as u32) << 6) | ((b1 & 0x3fu8) as u32)) == (0xc2 <= b0)
        &&& (((b0 & 0x1fu8) as u32) << 6) | ((b1 & 0x3fu8) as u32) < 0x800
    }) by (bit_vector);
}

proof fn lemma_three_byte_range(b0: u8, b1: u8, b2: u8)
    requires
        0xe0 <= b0 <= 0xef,
        0x80 <= b1 <= 0xbf,
        0x80 <= b2 <= 0xbf,
    ensures
        (not_overlong_encoding(codepoint_width_3(b0, b1, b2), 3) && not_surrogate(
            codepoint_width_3(b0, b1, b2),
        )) == second_byte_ok(b0, b1),
        codepoint_width_3(b0, b1, b2) < 0x10000,
{
    assert(0xe0 <= b0 <= 0xef && 0x80 <= b1 <= 0xbf && 0x80 <= b2 <= 0xbf ==> {
        let c = (((b0 & 0x0fu8) as u32) << 12) | (((b1 & 0x3fu8) as u32) << 6) | ((b2
            & 0x3fu8) as u32);
        &&& (0x800 <= c) == !(b0 == 0xe0 && b1 < 0xa0)
        &&& (0xd800 <= c && c <= 0xdfff) == (b0 == 0xed && b1 > 0x9f)
        &&& c < 0x10000
    }) by (bit_vector);
}

proof fn lemma_four_byte_range(b0: u8, b1: u8, b2: u8, b3: u8)
    requires
        0xf0 <= b0 <= 0xf7,
        0x80 <= b1 <= 0xbf,
        0x80 <= b2 <= 0xbf,
        0x80 <= b3 <= 0xbf,
    ensures
        not_overlong_encoding(codepoint_width_4(b0, b1, b2, b3), 4) == (b0 <= 0xf4
            && second_byte_ok(b0, b1)),
        not_overlong_encoding(codepoint_width_4(b0, b1, b2, b3), 4) ==> not_surrogate(
            codepoint_width_4(b0, b1, b2, b3),
        ),
{
    assert(0xf0 <= b0 <= 0xf7 && 0x80 <= b1 <= 0xbf && 0x80 <= b2 <= 0xbf && 0x80 <= b3 <= 0xbf
        ==> {
        let c = (((b0 & 0x07u8) as u32) << 18) | (((b1 & 0x3fu8) as u32) << 12) | (((b2
            & 0x3fu8) as u32) << 6) | ((b3 & 0x3fu8) as u32);
        &&& (0x10000 <= c) == !(b0 == 0xf0 && b1 < 0x90)
        &&& (c <= 0x10ffff) == (b0 < 0xf4 || (b0 == 0xf4 && b1 <= 0x8f))
    }) by (bit_vector);
}

/// The byte ranges describe exactly the sequences that begin with a scalar.
proof fn lemma_scalar_by_ranges(s: Seq<u8>)
    ensures
        valid_first_scalar(s) == scalar_by_ranges(s),
{
    if s.len() >= 2 && 0xc0 <= s[0] <= 0xdf && 0x80 <= s[1] <= 0xbf {
        lemma_two_byte_range(s[0], s[1]);
    }
    if s.len() >= 3 && 0xe0 <= s[0] <= 0xef && 0x80 <= s[1] <= 0xbf && 0x80 <= s[2] <= 0xbf {
        lemma_three_byte_range(s[0], s[1], s[2]);
    }
    if s.len() >= 4 && 0xf0 <= s[0] <= 0xf7 && 0x80 <= s[1] <= 0xbf && 0x80 <= s[2] <= 0xbf && 0x80
        <= s[3] <= 0xbf {
        lemma_four_byte_range(s[0], s[1], s[2], s[3]);
    }
    if s.len() >= 1 && s[0] <= 0x7f {
        let b = s[0];
        assert(b <= 0x7f ==> (b & 0x7fu8) as u32 <= 0x7f) by (bit_vector);
    }
}

/// The byte ranges describe exactly the cut-off scalars.
proof fn lemma_truncated_by_ranges(s: Seq<u8>)
    ensures
        truncated(s) == truncated_by_ranges(s),
{
    lemma_scalar_by_ranges(s);
    if truncated(s) {
        let more = choose|more: Seq<u8>| valid_first_scalar(#[trigger] (s + more));
        lemma_scalar_by_ranges(s + more);
        assert(forall|i: int| 0 <= i < s.len() ==> (s + more)[i] == s[i]);
    }
    if truncated_by_ranges(s) {
        let second: u8 = if s[0] == 0xe0 {
            0xa0
        } else if s[0] == 0xf0 {
            0x90
        } else {
            0x80
        };
        let more = if s.len() == 1 {
            seq![second, 0x80u8, 0x80u8]
        } else {
            seq![0x80u8, 0x80u8]
        };
        lemma_scalar_by_ranges(s + more);
        assert(valid_first_scalar(s + more));
    }
}

/// The first character that `s` decodes to from position `at` on, and the
/// bytes it takes; `None` when a scalar is cut off there.
pub fn next_unit(s: &[u8], at: usize) -> (unit: Option<(char, usize)>)
    requires
        at < s@.len(),
    ensures
        match unit {
            None => truncated(s@.skip(at as int)),
            Some((c, len)) => {
                &&& !truncated(s@.skip(at as int))
                &&& c == unit_char(s@.skip(at as int))
                &&& len == unit_len(s@.skip(at as int))
                &&& 1 <= len <= s@.len() - at
            },
        },
{
    let ghost tail = s@.skip(at as int);
    proof {
        lemma_scalar_by_ranges(tail);
        lemma_truncated_by_ranges(tail);
        if tail.len() >= 2 {
            lemma_truncated_by_ranges(tail.take(2));
        }
        if tail.len() >= 3 {
            lemma_truncated_by_ranges(tail.take(3));
        }
    }
    let left: usize = s.len() - at;
    let b0 = s[at];
    if b0 <= 0x7f {
        assert(b0 <= 0x7f ==> (b0 & 0x7fu8) as u32 == b0 as u32) by (bit_vector);
        return Some((b0 as char, 1));
    }
    if b0 < 0xc2 || b0 > 0xf4 {
        return Some(('\u{fffd}', 1));
    }
    if left < 2 {
        return None;
    }
    let b1 = s[at + 1];
    if b0 <= 0xdf {
        if 0x80 <= b1 && b1 <= 0xbf {
            proof {
                lemma_two_byte_range(b0, b1);
            }
            let code: u32 = (((b0 & 0x1f) as u32) << 6) | ((b1 & 0x3f) as u32);
            return Some((scalar(code), 2));
        }
        return Some(('\u{fffd}', 1));
    }
    if !second_byte(b0, b1) {
        return Some(('\u{fffd}', 1));
    }
    if left < 3 {
        return None;
    }
    let b2 = s[at + 2];
    if b2 < 0x80 || b2 > 0xbf {
        return Some(('\u{fffd}', 2));
    }
    if b0 <= 0xef {
        proof {
            lemma_three_byte_range(b0, b1, b2);
        }
        let code: u32 = (((b0 & 0x0f) as u32) << 12) | (((b1 & 0x3f) as u32) << 6) | ((b2
            & 0x3f) as u32);
        return Some((scalar(code), 3));
    }
    if left < 4 {
        return None;
    }
    let b3 = s[at + 3];
    if b3 < 0x80 || b3 > 0xbf {
        return Some(('\u{fffd}', 3));
    }
    proof {
        lemma_four_byte_range(b0, b1, b2, b3);
    }
    let code: u32 = (((b0 & 0x07) as u32) << 18) | (((b1 & 0x3f) as u32) << 12) | (((b2
        & 0x3f) as u32) << 6) | ((b3 & 0x3f) as u32);
    Some((scalar(code), 4))
}

/// The character with the scalar value `code`.
fn scalar(code: u32) -> (c: char)
    requires
        is_scalar(code),
    ensures
        c == code as char,
{
    match char::from_u32(code) {
        Some(c) => c,
        None => '\u{fffd}',
    }
}

fn second_byte(b0: u8, b1: u8) -> (ok: bool)
    ensures
        ok == second_byte_ok(b0, b1),
{
    if b0 == 0xe0 {
        0xa0 <= b1 && b1 <= 0xbf
    } else if b0 == 0xed {
        0x80 <= b1 && b1 <= 0x9f
    } else if b0 == 0xf0 {
        0x90 <= b1 && b1 <= 0xbf
    } else if b0 == 0xf4 {
        0x80 <= b1 && b1 <= 0x8f
    } else {
        0x80 <= b1 && b1 <= 0xbf
    }
}

/// A unit at the front of `a` is the same one at the front of `a + b`.
proof fn lemma_unit_extends(a: Seq<u8>, b: Seq<u8>)
    requires
        a.len() > 0,
        !truncated(a),
    ensures
        !truncated(a + b),
        unit_len(a + b) == unit_len(a),
        unit_char(a + b) == unit_char(a),
        1 <= unit_len(a) <= a.len(),
{
    let s = a + b;
    lemma_scalar_by_ranges(a);
    lemma_scalar_by_ranges(s);
    lemma_truncated_by_ranges(a);
    lemma_truncated_by_ranges(s);
    assert(forall|i: int| 0 <= i < a.len() ==> s[i] == a[i]);
    assert forall|k: int| 2 <= k <= 3 && k <= s.len() implies truncated(#[trigger] s.take(k)) == (k
        <= a.len() && truncated(a.take(k))) || valid_first_scalar(a) by {
        lemma_truncated_by_ranges(s.take(k));
        if k <= a.len() {
            assert(s.take(k) =~= a.take(k));
        } else if !valid_first_scalar(a) && truncated(s.take(k)) {
            assert(truncated_by_ranges(a));
        }
    }
    if s.len() >= 2 {
        assert(s.take(2).len() == 2);
    }
    if s.len() >= 3 {
        assert(s.take(3).len() == 3);
    }
}

/// Decoding in chunks is decoding at once: what the first chunk leaves cut off
/// is decoded together with the second.
pub proof fn decode_stream_in_chunks(a: Seq<u8>, b: Seq<u8>)
    ensures
        decode_stream(a + b) == ({
            let first = decode_stream(a);
            let second = decode_stream(first.1 + b);
            (first.0 + second.0, second.1)
        }),
    decreases a.len(),
{
    let first = decode_stream(a);
    let second = decode_stream(first.1 + b);
    if a.len() == 0 || truncated(a) {
        assert(first.0 + second.0 =~= second.0);
    } else {
        lemma_unit_extends(a, b);
        let n = unit_len(a);
        assert((a + b).skip(n) =~= a.skip(n) + b);
        decode_stream_in_chunks(a.skip(n), b);
        let later = decode_stream(a.skip(n) + b);
        assert(decode_stream(a + b).0 =~= first.0 + second.0);
    }
}

/// Well-formed text decodes to itself, with nothing left over.
pub proof fn decode_stream_of_text(text: Seq<char>)
    ensures
        decode_stream(encode_utf8(text)) == (text, Seq::<u8>::empty()),
    decreases text.len(),
{
    let bytes = encode_utf8(text);
    if text.len() > 0 {
        encode_utf8_first_scalar(text);
        char_u32_cast(text[0], decode_first_scalar(bytes));
        let n = unit_len(bytes);
        assert(bytes.skip(n) =~= encode_utf8(text.drop_first()));
        decode_stream_of_text(text.drop_first());
        assert(seq![text[0]] + text.drop_first() =~= text);
    } else {
        assert(bytes =~= Seq::<u8>::empty());
        assert(text =~= Seq::<char>::empty());
    }
}

/// What stays undecoded is empty or one cut-off scalar, of at most three bytes.
pub proof fn decode_stream_leaves_little(s: Seq<u8>)
    ensures
        decode_stream(s).1.len() <= 3,
        decode_stream(s).1.len() > 0 ==> truncated(decode_stream(s).1),
        decode_stream(s).0.len() + decode_stream(s).1.len() <= s.len(),
    decreases s.len(),
{
    if s.len() > 0 {
        lemma_truncated_by_ranges(s);
        if !truncated(s) {
            lemma_unit_extends(s, Seq::empty());
            decode_stream_leaves_little(s.skip(unit_len(s)));
        }
    }
}

/// Bytes that begin a scalar which the next byte breaks off become one U+FFFD,
/// and decoding goes on at the byte that broke it; a byte that can begin none
/// becomes one U+FFFD by itself. Nothing that follows is lost.
pub proof fn broken_scalars_become_one_mark(cut: Seq<u8>, next: u8, rest: Seq<u8>)
    requires
        truncated(cut) || cut.len() == 0,
        !valid_first_scalar(cut.push(next)),
        !truncated(cut.push(next)),
    ensures
        cut.len() > 0 ==> decode_stream(cut + (seq![next] + rest)) == (
            seq!['\u{fffd}'] + decode_stream(seq![next] + rest).0,
            decode_stream(seq![next] + rest).1,
        ),
        cut.len() == 0 ==> decode_stream(seq![next] + rest) == (
            seq!['\u{fffd}'] + decode_stream(rest).0,
            decode_stream(rest).1,
        ),
{
    let s = cut + (seq![next] + rest);
    let broken = cut.push(next);
    lemma_scalar_by_ranges(s);
    lemma_truncated_by_ranges(s);
    lemma_scalar_by_ranges(broken);
    lemma_truncated_by_ranges(broken);
    lemma_truncated_by_ranges(cut);
    lemma_scalar_by_ranges(cut);
    assert(forall|i: int| 0 <= i < broken.len() ==> s[i] == broken[i]);
    if s.len() >= 3 {
        lemma_truncated_by_ranges(s.take(3));
    }
    if s.len() >= 2 {
        lemma_truncated_by_ranges(s.take(2));
    }
    if cut.len() > 0 {
        assert(unit_len(s) == cut.len());
        assert(s.skip(cut.len() as int) =~= seq![next] + rest);
    } else {
        assert(s =~= seq![next] + rest);
        assert(unit_len(s) == 1);
        assert(s.skip(1) =~= rest);
    }
}

} // verus!
