//! Paste encoding: bracketed when the application asked for it, with line
//! breaks turned into carriage returns otherwise.

use vstd::prelude::*;

verus! {

/// What opens a bracketed paste: `ESC [ 200 ~`.
pub open spec fn paste_start() -> Seq<u8> {
    seq![0x1bu8, '[' as u8, '2' as u8, '0' as u8, '0' as u8, '~' as u8]
}

/// What ends a bracketed paste: `ESC [ 201 ~`.
pub open spec fn paste_end() -> Seq<u8> {
    seq![0x1bu8, '[' as u8, '2' as u8, '0' as u8, '1' as u8, '~' as u8]
}

/// The end marker stands in `s` at position `i`.
pub open spec fn end_at(s: Seq<u8>, i: int) -> bool {
    0 <= i <= s.len() - 6 && s.subrange(i, i + 6) == paste_end()
}

/// The end marker stands in `s` at position `i` and nowhere before it.
pub open spec fn first_end_at(s: Seq<u8>, i: int) -> bool {
    end_at(s, i) && forall|j: int| j < i ==> !#[trigger] end_at(s, j)
}

/// `s` with the first end marker taken out, again and again, until none is
/// left.
pub open spec fn without_ends(s: Seq<u8>) -> Seq<u8>
    decreases s.len(),
{
    if exists|i: int| first_end_at(s, i) {
        let i = choose|i: int| first_end_at(s, i);
        without_ends(s.take(i) + s.skip(i + 6))
    } else {
        s
    }
}

/// `s` with every line break, CR LF or LF alone, as one CR.
pub open spec fn with_carriage_returns(s: Seq<u8>) -> Seq<u8>
    decreases s.len(),
{
    if s.len() == 0 {
        s
    } else if s.len() > 1 && s[0] == 13 && s[1] == 10 {
        seq![13u8] + with_carriage_returns(s.skip(2))
    } else {
        seq![
            if s[0] == 10 {
                13
            } else {
                s[0]
            },
        ] + with_carriage_returns(s.skip(1))
    }
}

/// The bytes that a paste sends.
pub open spec fn pasted(text: Seq<u8>, bracketed: bool) -> Seq<u8> {
    if bracketed {
        paste_start() + without_ends(text) + paste_end()
    } else {
        with_carriage_returns(text)
    }
}

/// Taking out the first end marker is what `without_ends` does first.
proof fn lemma_without_first_end(s: Seq<u8>, i: int)
    requires
        first_end_at(s, i),
    ensures
        without_ends(s) == without_ends(s.take(i) + s.skip(i + 6)),
{
    let k = choose|k: int| first_end_at(s, k);
    assert(first_end_at(s, k));
    if k < i {
        assert(end_at(s, k));
    }
    if i < k {
        assert(end_at(s, i));
    }
}

/// A string that holds an end marker holds a first one.
proof fn lemma_some_end_is_first(s: Seq<u8>, i: int)
    requires
        end_at(s, i),
    ensures
        exists|k: int| first_end_at(s, k),
    decreases i,
{
    if first_end_at(s, i) {
    } else {
        let j = choose|j: int| j < i && #[trigger] end_at(s, j);
        lemma_some_end_is_first(s, j);
    }
}

/// Nothing in `s` ends a paste.
pub open spec fn holds_no_end(s: Seq<u8>) -> bool {
    forall|i: int| !#[trigger] end_at(s, i)
}

fn strip_ends(s: &[u8]) -> (out: Vec<u8>)
    ensures
        out@ == without_ends(s@),
        holds_no_end(out@),
{
    let mut out: Vec<u8> = Vec::new();
    let mut i: usize = 0;
    assert(out@ + s@.skip(0) =~= s@);
    while i < s.len()
        invariant
            i <= s@.len(),
            holds_no_end(out@),
            without_ends(out@ + s@.skip(i as int)) == without_ends(s@),
        decreases s@.len() - i,
    {
        let ghost before = out@;
        let ghost rest = s@.skip(i + 1);
        let ghost whole = before + s@.skip(i as int);
        out.push(s[i]);
        assert(whole =~= out@ + rest);
        assert forall|j: int| end_at(out@, j) implies j == out@.len() - 6 by {
            if j < out@.len() - 6 {
                assert(before.subrange(j, j + 6) =~= out@.subrange(j, j + 6));
                assert(end_at(before, j));
            }
        }
        let n: usize = out.len();
        if n >= 6 && out[n - 6] == 0x1b && out[n - 5] == '[' as u8 && out[n - 4] == '2' as u8 && out[n
            - 3] == '0' as u8 && out[n - 2] == '1' as u8 && out[n - 1] == '~' as u8 {
            let ghost k = n - 6;
            proof {
                assert(whole.subrange(k, k + 6) =~= paste_end());
                assert forall|j: int| j < k implies !#[trigger] end_at(whole, j) by {
                    if end_at(whole, j) {
                        assert(before.subrange(j, j + 6) =~= whole.subrange(j, j + 6));
                        assert(end_at(before, j));
                    }
                }
                lemma_without_first_end(whole, k);
            }
            out.truncate(n - 6);
            proof {
                assert(out@ =~= before.take(k));
                assert(whole.take(k) + whole.skip(k + 6) =~= out@ + rest);
                assert forall|j: int| !#[trigger] end_at(out@, j) by {
                    if end_at(out@, j) {
                        assert(before.subrange(j, j + 6) =~= out@.subrange(j, j + 6));
                        assert(end_at(before, j));
                    }
                }
            }
        } else {
            assert forall|j: int| !#[trigger] end_at(out@, j) by {
                if end_at(out@, j) {
                    assert(out@.subrange(j, j + 6) == paste_end());
                    assert(out@.subrange(j, j + 6)[0] == out@[j]);
                    assert(out@.subrange(j, j + 6)[1] == out@[j + 1]);
                    assert(out@.subrange(j, j + 6)[2] == out@[j + 2]);
                    assert(out@.subrange(j, j + 6)[3] == out@[j + 3]);
                    assert(out@.subrange(j, j + 6)[4] == out@[j + 4]);
                    assert(out@.subrange(j, j + 6)[5] == out@[j + 5]);
                }
            }
        }
        i = i + 1;
    }
    assert(out@ + s@.skip(i as int) =~= out@);
    out
}

fn line_breaks_to_cr(s: &[u8]) -> (out: Vec<u8>)
    ensures
        out@ == with_carriage_returns(s@),
{
    let mut out: Vec<u8> = Vec::new();
    let mut i: usize = 0;
    assert(s@.skip(0) =~= s@);
    assert(with_carriage_returns(s@) =~= out@ + with_carriage_returns(s@.skip(0)));
    while i < s.len()
        invariant
            i <= s@.len(),
            with_carriage_returns(s@) == out@ + with_carriage_returns(s@.skip(i as int)),
        decreases s@.len() - i,
    {
        let ghost tail = s@.skip(i as int);
        let ghost before = out@;
        if s[i] == 13 && i + 1 < s.len() && s[i + 1] == 10 {
            out.push(13);
            i = i + 2;
            assert(tail.skip(2) =~= s@.skip(i as int));
        } else {
            out.push(
                if s[i] == 10 {
                    13
                } else {
                    s[i]
                },
            );
            i = i + 1;
            assert(tail.skip(1) =~= s@.skip(i as int));
        }
        assert(before + with_carriage_returns(tail) =~= out@ + with_carriage_returns(
            s@.skip(i as int),
        ));
    }
    assert(out@ + with_carriage_returns(s@.skip(i as int)) =~= out@);
    out
}

/// Paste encoding: bracketed when the application asked for it, with end
/// markers taken out so that a paste cannot fake the terminator; line breaks
/// normalized to CR otherwise.
pub fn paste_bytes(text: &str, bracketed: bool) -> (bytes: Vec<u8>)
    ensures
        bytes@ == pasted(vstd::utf8::encode_utf8(text@), bracketed),
{
    if bracketed {
        let mut bytes: Vec<u8> = vec![
            0x1bu8,
            '[' as u8,
            '2' as u8,
            '0' as u8,
            '0' as u8,
            '~' as u8,
        ];
        let mut body = strip_ends(text.as_bytes());
        bytes.append(&mut body);
        bytes.push(0x1b);
        bytes.push('[' as u8);
        bytes.push('2' as u8);
        bytes.push('0' as u8);
        bytes.push('1' as u8);
        bytes.push('~' as u8);
        assert(bytes@ =~= pasted(vstd::utf8::encode_utf8(text@), bracketed));
        bytes
    } else {
        line_breaks_to_cr(text.as_bytes())
    }
}

proof fn lemma_no_end_left(s: Seq<u8>)
    ensures
        holds_no_end(without_ends(s)),
    decreases s.len(),
{
    if exists|i: int| first_end_at(s, i) {
        let i = choose|i: int| first_end_at(s, i);
        lemma_no_end_left(s.take(i) + s.skip(i + 6));
    } else {
        assert forall|i: int| !#[trigger] end_at(s, i) by {
            if end_at(s, i) {
                lemma_some_end_is_first(s, i);
            }
        }
    }
}

/// The end marker, byte by byte.
proof fn lemma_end_bytes(s: Seq<u8>, i: int)
    ensures
        end_at(s, i) <==> {
            &&& 0 <= i <= s.len() - 6
            &&& s[i] == 0x1b
            &&& s[i + 1] == '[' as u8
            &&& s[i + 2] == '2' as u8
            &&& s[i + 3] == '0' as u8
            &&& s[i + 4] == '1' as u8
            &&& s[i + 5] == '~' as u8
        },
{
    if 0 <= i <= s.len() - 6 {
        let here = s.subrange(i, i + 6);
        assert(here[0] == s[i] && here[1] == s[i + 1] && here[2] == s[i + 2] && here[3] == s[i + 3]
            && here[4] == s[i + 4] && here[5] == s[i + 5]);
        if s[i] == 0x1b && s[i + 1] == '[' as u8 && s[i + 2] == '2' as u8 && s[i + 3] == '0' as u8
            && s[i + 4] == '1' as u8 && s[i + 5] == '~' as u8 {
            assert(here =~= paste_end());
        }
    }
}

proof fn lemma_no_end_inside(body: Seq<u8>, i: int)
    requires
        holds_no_end(body),
        6 <= i <= body.len(),
    ensures
        !end_at(paste_start() + body + paste_end(), i),
{
    let bytes = paste_start() + body + paste_end();
    assert(bytes.subrange(i, i + 6) =~= body.subrange(i - 6, i));
    assert(!end_at(body, i - 6));
}

proof fn lemma_no_end_at_start(body: Seq<u8>, i: int)
    requires
        0 <= i < 6,
    ensures
        !end_at(paste_start() + body + paste_end(), i),
{
    let bytes = paste_start() + body + paste_end();
    lemma_end_bytes(bytes, i);
    assert(bytes[i] == paste_start()[i]);
    assert(bytes[4] == paste_start()[4]);
}

proof fn lemma_no_end_across(body: Seq<u8>, i: int)
    requires
        body.len() < i < body.len() + 6,
    ensures
        !end_at(paste_start() + body + paste_end(), i),
{
    let bytes = paste_start() + body + paste_end();
    let last: int = body.len() as int + 6;
    lemma_end_bytes(bytes, i);
    assert(bytes[last] == paste_end()[0]);
    let d = last - i;
    assert(d == 1 || d == 2 || d == 3 || d == 4 || d == 5);
    assert(bytes[i + d] == 0x1b);
}

/// Between the markers, a body without an end marker brings none in.
proof fn lemma_framed_body(body: Seq<u8>, i: int)
    requires
        holds_no_end(body),
    ensures
        end_at(paste_start() + body + paste_end(), i) <==> i == body.len() + 6,
{
    let bytes = paste_start() + body + paste_end();
    let last: int = body.len() as int + 6;
    if i == last {
        assert(bytes.subrange(last, last + 6) =~= paste_end());
    } else if 0 <= i < 6 {
        lemma_no_end_at_start(body, i);
    } else if 6 <= i <= body.len() {
        lemma_no_end_inside(body, i);
    } else if body.len() < i < last {
        lemma_no_end_across(body, i);
    }
}

/// A bracketed paste cannot fake its terminator: whatever the text holds, the
/// end marker stands in the bytes exactly once, at their end.
pub proof fn paste_ends_once(text: Seq<u8>, i: int)
    ensures
        end_at(pasted(text, true), i) <==> i == pasted(text, true).len() - 6,
{
    lemma_no_end_left(text);
    lemma_framed_body(without_ends(text), i);
}

/// Text that holds no end marker is pasted in brackets as it is.
pub proof fn paste_keeps_innocent_text(text: Seq<u8>)
    requires
        holds_no_end(text),
    ensures
        pasted(text, true) == paste_start() + text + paste_end(),
{
    assert forall|i: int| !first_end_at(text, i) by {
        assert(!end_at(text, i));
    }
}

/// In which order end markers are taken out does not matter: any one of them
/// can go first.
pub proof fn ends_go_in_any_order(a: Seq<u8>, b: Seq<u8>)
    ensures
        without_ends(a + paste_end() + b) == without_ends(a + b),
    decreases a.len(),
{
    let s = a + paste_end() + b;
    let n: int = a.len() as int;
    assert(s.subrange(n, n + 6) =~= paste_end());
    assert(end_at(s, n));
    lemma_some_end_is_first(s, n);
    let k = choose|k: int| first_end_at(s, k);
    assert(k <= n) by {
        if n < k {
            assert(!end_at(s, n));
        }
    }
    lemma_without_first_end(s, k);
    if k == n {
        assert(s.take(n) + s.skip(n + 6) =~= a + b);
    } else if k + 6 <= n {
        assert((a + b).subrange(k, k + 6) =~= s.subrange(k, k + 6));
        assert forall|j: int| j < k implies !#[trigger] end_at(a + b, j) by {
            if end_at(a + b, j) {
                assert((a + b).subrange(j, j + 6) =~= s.subrange(j, j + 6));
                assert(end_at(s, j));
            }
        }
        lemma_without_first_end(a + b, k);
        let shorter = a.take(k) + a.skip(k + 6);
        assert(s.take(k) + s.skip(k + 6) =~= shorter + paste_end() + b);
        assert((a + b).take(k) + (a + b).skip(k + 6) =~= shorter + b);
        ends_go_in_any_order(shorter, b);
    } else {
        lemma_end_bytes(s, k);
        lemma_end_bytes(s, n);
        let d = n - k;
        assert(d == 1 || d == 2 || d == 3 || d == 4 || d == 5);
        assert(s[k + d] == 0x1b);
    }
}

/// `s` with its end markers taken out in one pass from left to right.
pub open spec fn without_ends_in_one_pass(s: Seq<u8>) -> Seq<u8>
    decreases s.len(),
{
    if exists|i: int| first_end_at(s, i) {
        let i = choose|i: int| first_end_at(s, i);
        s.take(i) + without_ends_in_one_pass(s.skip(i + 6))
    } else {
        s
    }
}

proof fn lemma_one_pass_is_a_start(before: Seq<u8>, s: Seq<u8>)
    ensures
        without_ends(before + s) == without_ends(before + without_ends_in_one_pass(s)),
    decreases s.len(),
{
    if exists|i: int| first_end_at(s, i) {
        let i = choose|i: int| first_end_at(s, i);
        let rest = s.skip(i + 6);
        assert(s =~= s.take(i) + paste_end() + rest);
        assert(before + s =~= (before + s.take(i)) + paste_end() + rest);
        ends_go_in_any_order(before + s.take(i), rest);
        lemma_one_pass_is_a_start(before + s.take(i), rest);
        assert(before + without_ends_in_one_pass(s) =~= (before + s.take(i))
            + without_ends_in_one_pass(rest));
    }
}

/// Where one pass from left to right leaves no end marker, it is all that is
/// done to the text.
pub proof fn one_pass_mostly_suffices(text: Seq<u8>)
    requires
        holds_no_end(without_ends_in_one_pass(text)),
    ensures
        pasted(text, true) == paste_start() + without_ends_in_one_pass(text) + paste_end(),
{
    lemma_one_pass_is_a_start(Seq::empty(), text);
    assert(Seq::empty() + text =~= text);
    assert(Seq::empty() + without_ends_in_one_pass(text) =~= without_ends_in_one_pass(text));
    paste_keeps_innocent_text(without_ends_in_one_pass(text));
    assert forall|i: int| !first_end_at(without_ends_in_one_pass(text), i) by {
        assert(!end_at(without_ends_in_one_pass(text), i));
    }
}

/// A paste without brackets holds no LF, and text without LF is unchanged.
pub proof fn paste_sends_no_line_feed(text: Seq<u8>)
    ensures
        !pasted(text, false).contains(10u8),
        !text.contains(10u8) ==> pasted(text, false) == text,
    decreases text.len(),
{
    if text.len() > 0 {
        let n: int = if text.len() > 1 && text[0] == 13 && text[1] == 10 {
            2
        } else {
            1
        };
        let rest = text.skip(n);
        paste_sends_no_line_feed(rest);
        assert forall|i: int| 0 <= i < pasted(text, false).len() implies pasted(text, false)[i]
            != 10u8 by {
            if i > 0 {
                assert(pasted(text, false)[i] == pasted(rest, false)[i - 1]);
            }
        }
        if !text.contains(10u8) {
            assert(text[0] != 10u8);
            if n == 2 {
                assert(text.contains(text[1]));
            }
            assert forall|i: int| 0 <= i < rest.len() implies rest[i] != 10u8 by {
                assert(rest[i] == text[i + n]);
                assert(text.contains(text[i + n]));
            }
            assert(pasted(text, false) =~= text);
        }
    }
}

/// A paste without brackets goes piece by piece: pasting one text after
/// another is pasting both at once, unless a CR LF is torn apart between them.
pub proof fn plain_pastes_add_up(a: Seq<u8>, b: Seq<u8>)
    requires
        !(a.len() > 0 && b.len() > 0 && a.last() == 13 && b[0] == 10),
    ensures
        pasted(a + b, false) == pasted(a, false) + pasted(b, false),
    decreases a.len(),
{
    if a.len() == 0 {
        assert(a + b =~= b);
        assert(pasted(a, false) + pasted(b, false) =~= pasted(b, false));
    } else {
        let n: int = if a.len() > 1 && a[0] == 13 && a[1] == 10 {
            2
        } else {
            1
        };
        let rest = a.skip(n);
        assert((a + b).skip(n) =~= rest + b);
        if rest.len() > 0 {
            assert(rest.last() == a.last());
        }
        plain_pastes_add_up(rest, b);
        assert(pasted(a + b, false) =~= pasted(a, false) + pasted(b, false));
    }
}

/// A byte by itself is pasted as it is, or as CR where it is an LF, and CR LF
/// as one CR. Together with pasting piece by piece this fixes every paste.
pub proof fn plain_pastes_keep_bytes(byte: u8)
    ensures
        pasted(seq![byte], false) == seq![
            if byte == 10 {
                13u8
            } else {
                byte
            },
        ],
        pasted(seq![13u8, 10u8], false) == seq![13u8],
        pasted(Seq::empty(), false) == Seq::<u8>::empty(),
{
    reveal_with_fuel(with_carriage_returns, 3);
    assert(seq![byte].skip(1) =~= Seq::empty());
    assert(seq![13u8, 10u8].skip(2) =~= Seq::empty());
    assert(pasted(seq![byte], false) =~= seq![
        if byte == 10 {
            13u8
        } else {
            byte
        },
    ]);
    assert(pasted(seq![13u8, 10u8], false) =~= seq![13u8]);
}

/// How many CR LF pairs `s` holds.
pub open spec fn line_break_pairs(s: Seq<u8>) -> nat
    decreases s.len(),
{
    if s.len() < 2 {
        0
    } else {
        line_break_pairs(s.drop_last()) + if s[s.len() - 2] == 13 && s.last() == 10 {
            1nat
        } else {
            0
        }
    }
}

/// A paste without brackets loses no line: it is shorter than its text by one
/// byte for each CR LF.
pub proof fn plain_pastes_keep_every_line(text: Seq<u8>)
    ensures
        pasted(text, false).len() + line_break_pairs(text) == text.len(),
    decreases text.len(),
{
    plain_pastes_keep_bytes(0);
    if text.len() > 0 {
        let before = text.drop_last();
        let last = text.last();
        plain_pastes_keep_every_line(before);
        plain_pastes_keep_bytes(last);
        if text.len() >= 2 && text[text.len() - 2] == 13 && last == 10 {
            let head = before.drop_last();
            plain_pastes_keep_every_line(head);
            assert(text =~= head + seq![13u8, 10u8]);
            assert(before =~= head + seq![13u8]);
            plain_pastes_add_up(head, seq![13u8, 10u8]);
            plain_pastes_keep_bytes(13);
            plain_pastes_add_up(head, seq![13u8]);
        } else {
            assert(text =~= before + seq![last]);
            plain_pastes_add_up(before, seq![last]);
        }
    } else {
        assert(text =~= Seq::empty());
    }
}

/// The end marker stands nowhere in `s`, byte by byte.
pub open spec fn free_of_ends(s: Seq<u8>) -> bool {
    forall|i: int|
        0 <= i && i + 6 <= s.len() ==> !(#[trigger] s[i] == 0x1b && s[i + 1] == 0x5b && s[i + 2]
            == 0x32 && s[i + 3] == 0x30 && s[i + 4] == 0x31 && s[i + 5] == 0x7e)
}

/// A bracketed paste is its text between `ESC [ 200 ~` and `ESC [ 201 ~`, and
/// the text is sent to the byte, line breaks and all, but for the end markers
/// in it: with one of them taken out anywhere the paste is the same.
pub proof fn bracketed_pastes_keep_their_text(a: Seq<u8>, b: Seq<u8>)
    ensures
        free_of_ends(a + b) ==> pasted(a + b, true) == seq![
            0x1bu8,
            0x5bu8,
            0x32u8,
            0x30u8,
            0x30u8,
            0x7eu8,
        ] + (a + b) + seq![0x1bu8, 0x5bu8, 0x32u8, 0x30u8, 0x31u8, 0x7eu8],
        pasted(a + seq![0x1bu8, 0x5bu8, 0x32u8, 0x30u8, 0x31u8, 0x7eu8] + b, true) == pasted(
            a + b,
            true,
        ),
{
    let text = a + b;
    assert(paste_start() =~= seq![0x1bu8, 0x5bu8, 0x32u8, 0x30u8, 0x30u8, 0x7eu8]);
    assert(paste_end() =~= seq![0x1bu8, 0x5bu8, 0x32u8, 0x30u8, 0x31u8, 0x7eu8]);
    ends_go_in_any_order(a, b);
    if free_of_ends(text) {
        assert forall|i: int| !#[trigger] end_at(text, i) by {
            lemma_end_bytes(text, i);
            if end_at(text, i) {
                assert(text[i] == 0x1b);
            }
        }
        paste_keeps_innocent_text(text);
    }
}

} // verus!
