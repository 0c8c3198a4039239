//! A line-oriented screen for dumb terminals: a scrollback of logical lines
//! with a cursor column, fed raw bytes. It understands the control bytes that
//! a `TERM=dumb` shell emits (CR, LF, BS, TAB, BEL) and enough of ESC, CSI and
//! OSC to swallow stray sequences and to honor erase-line and clear-screen.

use vstd::prelude::*;
use vstd::slice::{slice_subrange, slice_to_vec};

use crate::utf8;

verus! {

/// The most lines that the scrollback keeps.
pub const MAX_SCROLLBACK: usize = 5000;

/// Where the screen stands inside an escape sequence.
enum EscState {
    Ground,
    Esc,
    /// A charset selector came: swallow exactly one following character.
    EscTakeOne,
    Csi { params: Vec<char> },
    Osc { esc_pending: bool },
}

/// The model of an escape state.
pub enum EscView {
    Ground,
    Esc,
    EscTakeOne,
    Csi { params: Seq<char> },
    Osc { esc_pending: bool },
}

impl View for EscState {
    type V = EscView;

    closed spec fn view(&self) -> EscView {
        match self {
            EscState::Ground => EscView::Ground,
            EscState::Esc => EscView::Esc,
            EscState::EscTakeOne => EscView::EscTakeOne,
            EscState::Csi { params } => EscView::Csi { params: params@ },
            EscState::Osc { esc_pending } => EscView::Osc { esc_pending: *esc_pending },
        }
    }
}

/// A scrollback of logical lines with a cursor column.
pub struct Screen {
    /// Oldest first; the last line is where the cursor lives.
    lines: Vec<Vec<char>>,
    pub cursor_col: usize,
    esc: EscState,
    /// Cut-off UTF-8 tail carried across feeds.
    pending: Vec<u8>,
}

/// The model of a screen.
#[verifier::ext_equal]
pub struct ScreenView {
    pub lines: Seq<Seq<char>>,
    pub cursor_col: int,
    pub esc: EscView,
    pub pending: Seq<u8>,
}

pub open spec fn line_views(lines: Seq<Vec<char>>) -> Seq<Seq<char>> {
    lines.map_values(|line: Vec<char>| line@)
}

impl View for Screen {
    type V = ScreenView;

    closed spec fn view(&self) -> ScreenView {
        ScreenView {
            lines: line_views(self.lines@),
            cursor_col: self.cursor_col as int,
            esc: self.esc@,
            pending: self.pending@,
        }
    }
}

impl ScreenView {
    /// There is always a line for the cursor, the scrollback keeps its bound,
    /// and the bytes that wait are one cut-off scalar.
    pub open spec fn wf(self) -> bool {
        &&& 1 <= self.lines.len() <= MAX_SCROLLBACK
        &&& self.cursor_col >= 0
        &&& self.pending.len() > 0 ==> utf8::truncated(self.pending)
    }

    /// This screen with another last line.
    pub open spec fn with_last(self, line: Seq<char>) -> ScreenView {
        ScreenView { lines: self.lines.drop_last().push(line), ..self }
    }

    /// A new last line; past the bound the oldest line goes. The column stays.
    pub open spec fn newline(self) -> ScreenView {
        let all = self.lines.push(Seq::empty());
        ScreenView {
            lines: if all.len() > MAX_SCROLLBACK {
                all.skip(all.len() - MAX_SCROLLBACK)
            } else {
                all
            },
            ..self
        }
    }

    /// `c` at the cursor, which moves on.
    pub open spec fn put(self, c: char) -> ScreenView {
        ScreenView {
            cursor_col: self.cursor_col + 1,
            ..self.with_last(overwrite(self.lines.last(), self.cursor_col, c))
        }
    }

    /// What the final character of a CSI sequence does.
    pub open spec fn csi(self, params: Seq<char>, last: char) -> ScreenView {
        if last == 'K' {
            let line = self.lines.last();
            self.with_last(
                if self.cursor_col < line.len() {
                    line.take(self.cursor_col)
                } else {
                    line
                },
            )
        } else if last == 'J' && params.len() > 0 && (params[0] == '2' || params[0] == '3') {
            ScreenView { lines: seq![Seq::empty()], cursor_col: 0, ..self }
        } else {
            self
        }
    }

    /// The screen after one more character.
    pub open spec fn advance(self, c: char) -> ScreenView {
        match self.esc {
            EscView::Ground => if c == '\u{1b}' {
                ScreenView { esc: EscView::Esc, ..self }
            } else if c == '\n' {
                self.newline()
            } else if c == '\r' {
                ScreenView { cursor_col: 0, ..self }
            } else if c == '\u{8}' {
                ScreenView {
                    cursor_col: if self.cursor_col > 0 {
                        self.cursor_col - 1
                    } else {
                        0
                    },
                    ..self
                }
            } else if c == '\t' {
                ScreenView { cursor_col: (self.cursor_col / 8 + 1) * 8, ..self }
            } else if (c as u32) < 0x20 || c == '\u{7f}' {
                self
            } else {
                self.put(c)
            },
            EscView::Esc => ScreenView {
                esc: if c == '[' {
                    EscView::Csi { params: Seq::empty() }
                } else if c == ']' {
                    EscView::Osc { esc_pending: false }
                } else if c == '(' || c == ')' || c == '#' || c == '%' {
                    EscView::EscTakeOne
                } else {
                    EscView::Ground
                },
                ..self
            },
            EscView::EscTakeOne => ScreenView { esc: EscView::Ground, ..self },
            EscView::Csi { params } => if 0x20 <= c as u32 <= 0x3f {
                ScreenView { esc: EscView::Csi { params: params.push(c) }, ..self }
            } else if 0x40 <= c as u32 <= 0x7e {
                (ScreenView { esc: EscView::Ground, ..self }).csi(params, c)
            } else {
                ScreenView { esc: EscView::Ground, ..self }
            },
            EscView::Osc { esc_pending } => ScreenView {
                esc: if c == '\u{7}' || (c == '\\' && esc_pending) {
                    EscView::Ground
                } else {
                    EscView::Osc { esc_pending: c == '\u{1b}' }
                },
                ..self
            },
        }
    }

    /// The screen after several more characters.
    pub open spec fn advance_all(self, text: Seq<char>) -> ScreenView
        decreases text.len(),
    {
        if text.len() == 0 {
            self
        } else {
            self.advance(text[0]).advance_all(text.drop_first())
        }
    }

    /// The cursor's column stays countable while the screen advances.
    pub open spec fn column_fits(self, text: Seq<char>) -> bool
        decreases text.len(),
    {
        text.len() > 0 ==> self.advance(text[0]).cursor_col <= usize::MAX && self.advance(
            text[0],
        ).column_fits(text.drop_first())
    }

    /// The bytes can be fed: they are few enough that no column can leave the
    /// range of `usize`, or none does.
    pub open spec fn has_room(self, bytes: Seq<u8>) -> bool {
        ||| self.cursor_col + 8 * (self.pending.len() + bytes.len()) <= usize::MAX
        ||| self.column_fits(utf8::decode_stream(self.pending + bytes).0)
    }

    /// The last `rows` lines, ending `offset` lines above the bottom.
    pub open spec fn window(self, rows: int, offset: int) -> Seq<Seq<char>> {
        let n = self.lines.len();
        let end = if offset < n {
            n - offset
        } else {
            1
        };
        let start = if rows < end {
            end - rows
        } else {
            0
        };
        self.lines.subrange(start, end)
    }

    /// A screen of one empty line.
    pub open spec fn fresh() -> ScreenView {
        ScreenView {
            lines: seq![Seq::empty()],
            cursor_col: 0,
            esc: EscView::Ground,
            pending: Seq::empty(),
        }
    }

    /// The screen after more bytes: the waiting ones and these are decoded,
    /// every character advances the screen, a cut-off scalar waits on.
    pub open spec fn feed(self, bytes: Seq<u8>) -> ScreenView {
        let decoded = utf8::decode_stream(self.pending + bytes);
        ScreenView { pending: decoded.1, ..self.advance_all(decoded.0) }
    }
}

/// `line` with `c` in column `col`, blanks filling what lies before it.
pub open spec fn overwrite(line: Seq<char>, col: int, c: char) -> Seq<char> {
    if col < line.len() {
        line.update(col, c)
    } else {
        (line + Seq::new((col - line.len()) as nat, |i: int| ' ')).push(c)
    }
}

impl Screen {
    pub fn new() -> (screen: Self)
        ensures
            screen@ == ScreenView::fresh(),
            screen@.wf(),
    {
        let mut lines: Vec<Vec<char>> = Vec::new();
        lines.push(Vec::new());
        let screen = Screen { lines, cursor_col: 0, esc: EscState::Ground, pending: Vec::new() };
        assert(screen@.lines =~= seq![Seq::<char>::empty()]);
        screen
    }

    pub fn line_count(&self) -> (n: usize)
        ensures
            n == self@.lines.len(),
    {
        self.lines.len()
    }

    /// The last `rows` lines, ending `offset` lines above the bottom.
    pub fn visible(&self, rows: usize, offset: usize) -> (lines: &[Vec<char>])
        requires
            self@.wf(),
        ensures
            line_views(lines@) == self@.window(rows as int, offset as int),
    {
        let n: usize = self.lines.len();
        let offset: usize = if offset < n {
            offset
        } else {
            n - 1
        };
        let end: usize = n - offset;
        let start: usize = if rows < end {
            end - rows
        } else {
            0
        };
        let lines = slice_subrange(self.lines.as_slice(), start, end);
        assert(line_views(lines@) =~= self@.lines.subrange(start as int, end as int));
        lines
    }

    fn newline(&mut self)
        requires
            old(self)@.wf(),
        ensures
            final(self)@ == old(self)@.newline(),
            final(self)@.wf(),
    {
        self.lines.push(Vec::new());
        if self.lines.len() > MAX_SCROLLBACK {
            self.lines.remove(0);
        }
        assert(self@.lines =~= old(self)@.newline().lines);
    }

    fn put(&mut self, c: char)
        requires
            old(self)@.wf(),
            old(self).cursor_col < usize::MAX,
        ensures
            final(self)@ == old(self)@.put(c),
            final(self)@.wf(),
    {
        let ghost before = self@;
        let ghost kept = line_views(self.lines@.drop_last());
        let mut line = match self.lines.pop() {
            Some(line) => line,
            None => Vec::new(),
        };
        let col = self.cursor_col;
        let ghost start = line@;
        assert(start == before.lines.last());
        while line.len() < col
            invariant
                start.len() <= line@.len(),
                line@.len() <= col || line@ == start,
                line@ == start + Seq::new((line@.len() - start.len()) as nat, |i: int| ' '),
            decreases col - line.len(),
        {
            line.push(' ');
        }
        if col < line.len() {
            line.set(col, c);
        } else {
            line.push(c);
        }
        assert(line@ =~= overwrite(start, col as int, c));
        self.lines.push(line);
        self.cursor_col = col + 1;
        assert(self@.lines =~= before.put(c).lines);
    }

    fn erase_to_end(&mut self)
        requires
            old(self)@.wf(),
        ensures
            final(self)@ == old(self)@.csi(Seq::empty(), 'K'),
            final(self)@.wf(),
    {
        let ghost before = self@;
        let mut line = match self.lines.pop() {
            Some(line) => line,
            None => Vec::new(),
        };
        let ghost start = line@;
        assert(start == before.lines.last());
        line.truncate(self.cursor_col);
        assert(line@ =~= if self.cursor_col < start.len() {
            start.take(self.cursor_col as int)
        } else {
            start
        });
        self.lines.push(line);
        assert(self@.lines =~= before.csi(Seq::empty(), 'K').lines);
    }

    fn advance(&mut self, c: char)
        requires
            old(self)@.wf(),
            old(self)@.advance(c).cursor_col <= usize::MAX,
        ensures
            final(self)@ == old(self)@.advance(c),
            final(self)@.wf(),
    {
        let ghost before = self@;
        match &mut self.esc {
            EscState::Ground => {
                if c == '\u{1b}' {
                    self.esc = EscState::Esc;
                } else if c == '\n' {
                    self.newline();
                } else if c == '\r' {
                    self.cursor_col = 0;
                } else if c == '\u{8}' {
                    self.cursor_col = self.cursor_col.saturating_sub(1);
                } else if c == '\t' {
                    self.cursor_col = (self.cursor_col / 8 + 1) * 8;
                } else if (c as u32) < 0x20 || c == '\u{7f}' {
                } else {
                    self.put(c);
                }
            },
            EscState::Esc => {
                if c == '[' {
                    self.esc = EscState::Csi { params: Vec::new() };
                } else if c == ']' {
                    self.esc = EscState::Osc { esc_pending: false };
                } else if c == '(' || c == ')' || c == '#' || c == '%' {
                    self.esc = EscState::EscTakeOne;
                } else {
                    self.esc = EscState::Ground;
                }
            },
            EscState::EscTakeOne => {
                self.esc = EscState::Ground;
            },
            EscState::Csi { params } => {
                let code: u32 = c as u32;
                if 0x20 <= code && code <= 0x3f {
                    params.push(c);
                } else if 0x40 <= code && code <= 0x7e {
                    let clears = params.len() > 0 && (params[0] == '2' || params[0] == '3');
                    self.esc = EscState::Ground;
                    if c == 'K' {
                        self.erase_to_end();
                    } else if c == 'J' && clears {
                        let mut lines: Vec<Vec<char>> = Vec::new();
                        lines.push(Vec::new());
                        self.lines = lines;
                        self.cursor_col = 0;
                        assert(self@.lines =~= before.advance(c).lines);
                    }
                } else {
                    self.esc = EscState::Ground;
                }
            },
            EscState::Osc { esc_pending } => {
                if c == '\u{7}' || (c == '\\' && *esc_pending) {
                    self.esc = EscState::Ground;
                } else {
                    *esc_pending = c == '\u{1b}';
                }
            },
        }
    }

    /// Decode more bytes and advance the screen by every character; a scalar
    /// cut off at the end waits for the next feed.
    pub fn feed(&mut self, bytes: &[u8])
        requires
            old(self)@.wf(),
            old(self)@.has_room(bytes@),
        ensures
            final(self)@ == old(self)@.feed(bytes@),
            final(self)@.wf(),
            final(self)@.cursor_col + 8 * final(self)@.pending.len() <= old(self)@.cursor_col + 8
                * (old(self)@.pending.len() + bytes@.len()),
    {
        let ghost before = self@;
        let mut buf: Vec<u8> = Vec::new();
        std::mem::swap(&mut buf, &mut self.pending);
        buf.extend_from_slice(bytes);
        assert(buf@ =~= before.pending + bytes@);
        let mut at: usize = 0;
        let ghost decoded = utf8::decode_stream(buf@);
        assert(buf@.skip(0) =~= buf@);
        proof {
            utf8::decode_stream_leaves_little(buf@);
            before.lemma_pending_is_carried(Seq::empty(), decoded.0);
            before.lemma_room_suffices(bytes@);
            before.lemma_column_fits_without_pending(decoded.0);
        }
        while at < buf.len()
            invariant
                at <= buf@.len(),
                self@.wf(),
                self@.pending == Seq::<u8>::empty(),
                self@.column_fits(utf8::decode_stream(buf@.skip(at as int)).0),
                decoded.1 == utf8::decode_stream(buf@.skip(at as int)).1,
                (ScreenView { pending: Seq::empty(), ..before }).advance_all(decoded.0)
                    == self@.advance_all(utf8::decode_stream(buf@.skip(at as int)).0),
                decoded.1.len() > 0 ==> utf8::truncated(decoded.1),
            ensures
                self@.wf(),
                decoded.1 == buf@.skip(at as int),
                self@.pending == Seq::<u8>::empty(),
                (ScreenView { pending: Seq::empty(), ..before }).advance_all(decoded.0) == self@,
            decreases buf@.len() - at,
        {
            let ghost tail = buf@.skip(at as int);
            match utf8::next_unit(buf.as_slice(), at) {
                None => {
                    break ;
                },
                Some((c, len)) => {
                    let ghost rest = utf8::decode_stream(tail.skip(len as int)).0;
                    assert(tail.skip(len as int) =~= buf@.skip(at + len));
                    assert((seq![c] + rest).drop_first() =~= rest);
                    self.advance(c);
                    at = at + len;
                },
            }
        }
        self.pending = slice_to_vec(slice_subrange(buf.as_slice(), at, buf.len()));
        assert(self@ == before.feed(bytes@));
        proof {
            before.feeding_moves_the_cursor_little(bytes@);
        }
    }
}

impl ScreenView {
    /// Advancing never looks at the bytes that wait.
    proof fn lemma_pending_is_carried(self, pending: Seq<u8>, text: Seq<char>)
        ensures
            (ScreenView { pending, ..self }).advance_all(text) == (ScreenView {
                pending,
                ..self.advance_all(text)
            }),
            self.advance_all(text).pending == self.pending,
        decreases text.len(),
    {
        if text.len() > 0 {
            let other = ScreenView { pending, ..self };
            assert(other.advance(text[0]) == (ScreenView { pending, ..self.advance(text[0]) }));
            self.advance(text[0]).lemma_pending_is_carried(pending, text.drop_first());
        }
    }

    proof fn lemma_column_fits_without_pending(self, text: Seq<char>)
        ensures
            (ScreenView { pending: Seq::empty(), ..self }).column_fits(text) == self.column_fits(
                text,
            ),
        decreases text.len(),
    {
        if text.len() > 0 {
            let other = ScreenView { pending: Seq::empty(), ..self };
            assert(other.advance(text[0]) == (ScreenView {
                pending: Seq::empty(),
                ..self.advance(text[0])
            }));
            self.advance(text[0]).lemma_column_fits_without_pending(text.drop_first());
        }
    }

    proof fn lemma_column_moves_little(self, text: Seq<char>)
        requires
            self.cursor_col >= 0,
        ensures
            0 <= self.advance_all(text).cursor_col <= self.cursor_col + 8 * text.len(),
            self.cursor_col + 8 * text.len() <= usize::MAX ==> self.column_fits(text),
        decreases text.len(),
    {
        if text.len() > 0 {
            self.advance(text[0]).lemma_column_moves_little(text.drop_first());
        }
    }

    proof fn lemma_room_suffices(self, bytes: Seq<u8>)
        requires
            self.wf(),
            self.has_room(bytes),
        ensures
            self.column_fits(utf8::decode_stream(self.pending + bytes).0),
    {
        utf8::decode_stream_leaves_little(self.pending + bytes);
        self.lemma_column_moves_little(utf8::decode_stream(self.pending + bytes).0);
    }

    /// A feed moves the cursor by at most eight columns for each byte, those
    /// that go on waiting left aside.
    pub proof fn feeding_moves_the_cursor_little(self, bytes: Seq<u8>)
        requires
            self.wf(),
        ensures
            0 <= self.feed(bytes).cursor_col,
            self.feed(bytes).cursor_col + 8 * self.feed(bytes).pending.len() <= self.cursor_col + 8
                * (self.pending.len() + bytes.len()),
    {
        utf8::decode_stream_leaves_little(self.pending + bytes);
        self.lemma_column_moves_little(utf8::decode_stream(self.pending + bytes).0);
    }

    /// Advancing by two texts in turn is advancing by both at once.
    proof fn lemma_advance_all_concat(self, a: Seq<char>, b: Seq<char>)
        ensures
            self.advance_all(a).advance_all(b) == self.advance_all(a + b),
        decreases a.len(),
    {
        if a.len() == 0 {
            assert(a + b =~= b);
        } else {
            self.advance(a[0]).lemma_advance_all_concat(a.drop_first(), b);
            assert((a + b).drop_first() =~= a.drop_first() + b);
        }
    }

    /// How a byte stream is cut into feeds does not matter, even inside a
    /// scalar or an escape sequence.
    pub proof fn feeding_in_chunks(self, a: Seq<u8>, b: Seq<u8>)
        ensures
            self.feed(a).feed(b) == self.feed(a + b),
    {
        let all = self.pending + a;
        let first = utf8::decode_stream(all);
        let second = utf8::decode_stream(first.1 + b);
        utf8::decode_stream_in_chunks(all, b);
        assert(all + b =~= self.pending + (a + b));
        self.advance_all(first.0).lemma_pending_is_carried(first.1, second.0);
        self.lemma_advance_all_concat(first.0, second.0);
    }

    /// Well-formed text advances the screen by its characters, and no byte of
    /// it is left waiting.
    pub proof fn feeding_text(self, text: Seq<char>)
        requires
            self.pending.len() == 0,
        ensures
            self.feed(vstd::utf8::encode_utf8(text)) == self.advance_all(text),
    {
        let bytes = vstd::utf8::encode_utf8(text);
        assert(self.pending + bytes =~= bytes);
        utf8::decode_stream_of_text(text);
        self.lemma_pending_is_carried(self.pending, text);
        assert(self.pending =~= Seq::empty());
    }

    /// Every feed keeps a line for the cursor and at most the bound of lines.
    pub proof fn feeding_keeps_bounds(self, bytes: Seq<u8>)
        requires
            self.wf(),
        ensures
            self.feed(bytes).wf(),
    {
        let decoded = utf8::decode_stream(self.pending + bytes);
        utf8::decode_stream_leaves_little(self.pending + bytes);
        self.lemma_advance_all_keeps_bounds(decoded.0);
    }

    proof fn lemma_advance_all_keeps_bounds(self, text: Seq<char>)
        requires
            self.wf(),
        ensures
            self.advance_all(text).wf(),
        decreases text.len(),
    {
        if text.len() > 0 {
            self.advance(text[0]).lemma_advance_all_keeps_bounds(text.drop_first());
        }
    }

    /// Printable text replaces the characters it covers and nothing else, with
    /// blanks before it where it starts behind the end of the last line.
    pub proof fn printing_overwrites(self, text: Seq<char>)
        requires
            self.wf(),
            self.esc == EscView::Ground,
            text.len() > 0,
            forall|i: int|
                0 <= i < text.len() ==> #[trigger] text[i] as u32 >= 0x20 && text[i] != '\u{7f}',
        ensures
            self.advance_all(text) == (ScreenView {
                cursor_col: self.cursor_col + text.len(),
                ..self.with_last(
                    splice(padded(self.lines.last(), self.cursor_col), self.cursor_col, text),
                )
            }),
        decreases text.len(),
    {
        let line = self.lines.last();
        let next = self.advance(text[0]);
        assert(next == self.put(text[0]));
        let there = next.lines.last();
        let rest = text.drop_first();
        let all = splice(padded(line, self.cursor_col), self.cursor_col, text);
        if rest.len() == 0 {
            assert(there =~= all);
            assert(next.advance_all(rest) == next);
        } else {
            assert forall|i: int| 0 <= i < rest.len() implies #[trigger] rest[i] as u32 >= 0x20
                && rest[i] != '\u{7f}' by {
                assert(rest[i] == text[i + 1]);
            }
            next.printing_overwrites(rest);
            assert(splice(padded(there, next.cursor_col), next.cursor_col, rest) =~= all);
            assert(next.with_last(all).lines =~= self.with_last(all).lines);
        }
    }

    /// The short escape sequences leave the screen as it was: a charset
    /// selector takes one character with it, any other character stands alone.
    pub proof fn short_escapes_are_swallowed(self, selector: char, c: char)
        requires
            self.esc == EscView::Ground,
        ensures
            selector == '(' || selector == ')' || selector == '#' || selector == '%'
                ==> self.advance_all(seq!['\u{1b}', selector, c]) == self,
            c != '[' && c != ']' && c != '(' && c != ')' && c != '#' && c != '%'
                ==> self.advance_all(seq!['\u{1b}', c]) == self,
    {
        assert(seq!['\u{1b}', selector, c].drop_first() =~= seq![selector, c]);
        assert(seq![selector, c].drop_first() =~= seq![c]);
        assert(seq!['\u{1b}', c].drop_first() =~= seq![c]);
        assert(seq![c].drop_first() =~= Seq::empty());
        reveal_with_fuel(ScreenView::advance_all, 4);
    }

    proof fn lemma_csi_collects(self, params: Seq<char>, more: Seq<char>)
        requires
            self.esc == (EscView::Csi { params }),
            forall|i: int| 0 <= i < more.len() ==> 0x20 <= #[trigger] more[i] as u32 <= 0x3f,
        ensures
            self.advance_all(more) == (ScreenView {
                esc: EscView::Csi { params: params + more },
                ..self
            }),
        decreases more.len(),
    {
        if more.len() == 0 {
            assert(params + more =~= params);
        } else {
            let next = self.advance(more[0]);
            let rest = more.drop_first();
            assert forall|i: int| 0 <= i < rest.len() implies 0x20 <= #[trigger] rest[i] as u32
                <= 0x3f by {
                assert(rest[i] == more[i + 1]);
            }
            next.lemma_csi_collects(params.push(more[0]), rest);
            assert(params.push(more[0]) + rest =~= params + more);
        }
    }

    /// A CSI sequence leaves no character behind: it does what its final
    /// character says, and nothing unless that erases.
    pub proof fn csi_is_swallowed(self, params: Seq<char>, last: char)
        requires
            self.esc == EscView::Ground,
            forall|i: int| 0 <= i < params.len() ==> 0x20 <= #[trigger] params[i] as u32 <= 0x3f,
            0x40 <= last as u32 <= 0x7e,
        ensures
            self.advance_all(seq!['\u{1b}', '['] + params + seq![last]) == self.csi(params, last),
            last != 'K' && last != 'J' ==> self.advance_all(
                seq!['\u{1b}', '['] + params + seq![last],
            ) == self,
    {
        let open = seq!['\u{1b}', '['];
        let inside = ScreenView { esc: EscView::Csi { params: Seq::empty() }, ..self };
        assert(self.advance_all(open) == inside) by {
            assert(open.drop_first() =~= seq!['[']);
            assert(seq!['['].drop_first() =~= Seq::empty());
            reveal_with_fuel(ScreenView::advance_all, 3);
        }
        inside.lemma_csi_collects(Seq::empty(), params);
        assert(Seq::empty() + params =~= params);
        let before = inside.advance_all(params);
        assert(before.advance_all(seq![last]) == self.csi(params, last)) by {
            assert(seq![last].drop_first() =~= Seq::empty());
            reveal_with_fuel(ScreenView::advance_all, 2);
        }
        self.lemma_advance_all_concat(open, params);
        self.lemma_advance_all_concat(open + params, seq![last]);
    }

    proof fn lemma_osc_skips(self, waiting: bool, payload: Seq<char>)
        requires
            self.esc == (EscView::Osc { esc_pending: waiting }),
            osc_payload(payload),
            waiting && payload.len() > 0 ==> payload[0] != '\\',
        ensures
            self.advance_all(payload) == (ScreenView {
                esc: EscView::Osc {
                    esc_pending: if payload.len() == 0 {
                        waiting
                    } else {
                        payload.last() == '\u{1b}'
                    },
                },
                ..self
            }),
        decreases payload.len(),
    {
        if payload.len() > 0 {
            let next = self.advance(payload[0]);
            let rest = payload.drop_first();
            assert forall|i: int| 0 <= i < rest.len() implies #[trigger] rest[i] != '\u{7}' && (i + 1
                < rest.len() && rest[i] == '\u{1b}' ==> rest[i + 1] != '\\') by {
                assert(rest[i] == payload[i + 1]);
            }
            next.lemma_osc_skips(payload[0] == '\u{1b}', rest);
        }
    }

    /// An OSC string leaves the screen as it was, whether BEL or ST ends it.
    pub proof fn osc_is_swallowed(self, payload: Seq<char>)
        requires
            self.esc == EscView::Ground,
            forall|i: int|
                0 <= i < payload.len() ==> #[trigger] payload[i] != '\u{7}' && (i + 1
                    < payload.len() && payload[i] == '\u{1b}' ==> payload[i + 1] != '\\'),
        ensures
            self.advance_all(seq!['\u{1b}', ']'] + payload + seq!['\u{7}']) == self,
            self.advance_all(seq!['\u{1b}', ']'] + payload + seq!['\u{1b}', '\\']) == self,
    {
        let open = seq!['\u{1b}', ']'];
        let st = seq!['\u{1b}', '\\'];
        let inside = ScreenView { esc: EscView::Osc { esc_pending: false }, ..self };
        assert(self.advance_all(open) == inside) by {
            assert(open.drop_first() =~= seq![']']);
            assert(seq![']'].drop_first() =~= Seq::empty());
            reveal_with_fuel(ScreenView::advance_all, 3);
        }
        inside.lemma_osc_skips(false, payload);
        let before = inside.advance_all(payload);
        assert(before.advance_all(seq!['\u{7}']) == self) by {
            assert(seq!['\u{7}'].drop_first() =~= Seq::empty());
            reveal_with_fuel(ScreenView::advance_all, 2);
        }
        assert(before.advance_all(st) == self) by {
            assert(st.drop_first() =~= seq!['\\']);
            assert(seq!['\\'].drop_first() =~= Seq::empty());
            reveal_with_fuel(ScreenView::advance_all, 3);
        }
        self.lemma_advance_all_concat(open, payload);
        self.lemma_advance_all_concat(open + payload, seq!['\u{7}']);
        self.lemma_advance_all_concat(open + payload, st);
    }
}

/// A character that prints when no escape sequence is open.
pub open spec fn printable(c: char) -> bool {
    c as u32 >= 0x20 && c != '\u{7f}'
}

/// A string that ends no OSC sequence: no BEL in it, and no ST.
pub open spec fn osc_payload(payload: Seq<char>) -> bool {
    forall|i: int|
        0 <= i < payload.len() ==> #[trigger] payload[i] != '\u{7}' && (i + 1 < payload.len()
            && payload[i] == '\u{1b}' ==> payload[i + 1] != '\\')
}

/// `line` with blanks behind it up to column `col`.
pub open spec fn padded(line: Seq<char>, col: int) -> Seq<char> {
    if col <= line.len() {
        line
    } else {
        line + Seq::new((col - line.len()) as nat, |i: int| ' ')
    }
}

/// `line` with `text` in the place of what it covers from column `col` on.
pub open spec fn splice(line: Seq<char>, col: int, text: Seq<char>) -> Seq<char> {
    let end = col + text.len();
    line.take(col) + text + if end < line.len() {
        line.skip(end)
    } else {
        Seq::empty()
    }
}

impl ScreenView {
    /// Printed text is on the last line from the cursor on, column by column;
    /// the columns before and behind it keep what they held, blanks fill the
    /// gap before it, the cursor stands behind it, and no other line changes.
    pub proof fn printing_goes_by_columns(self, text: Seq<char>)
        requires
            self.wf(),
            self.esc == EscView::Ground,
            text.len() > 0,
            forall|i: int|
                0 <= i < text.len() ==> #[trigger] text[i] as u32 >= 0x20 && text[i] != '\u{7f}',
        ensures
            ({
                let after = self.advance_all(text);
                let line = self.lines.last();
                let now = after.lines.last();
                let end = self.cursor_col + text.len();
                &&& after.cursor_col == end
                &&& after.esc == EscView::Ground
                &&& after.pending == self.pending
                &&& after.lines.len() == self.lines.len()
                &&& forall|i: int|
                    0 <= i < self.lines.len() - 1 ==> after.lines[i] == #[trigger] self.lines[i]
                &&& now.len() == if end < line.len() {
                    line.len() as int
                } else {
                    end
                }
                &&& forall|j: int|
                    0 <= j < now.len() ==> #[trigger] now[j] == if self.cursor_col <= j < end {
                        text[j - self.cursor_col]
                    } else if j < line.len() {
                        line[j]
                    } else {
                        ' '
                    }
            }),
    {
        self.printing_overwrites(text);
    }

    /// What the control characters do outside escape sequences: LF opens an
    /// empty line below and keeps the column, and past 5000 lines the oldest
    /// goes; CR goes to the first column, BS one back but not past it, TAB to
    /// the next multiple of eight; every other one changes nothing.
    pub proof fn controls_move_the_cursor(self, c: char)
        requires
            self.wf(),
            self.esc == EscView::Ground,
            (c as u32) < 0x20 || c == '\u{7f}',
            c != '\u{1b}',
        ensures
            ({
                let after = self.advance_all(seq![c]);
                let n = self.lines.len() as int;
                let m = after.lines.len() as int;
                &&& after.esc == EscView::Ground
                &&& after.pending == self.pending
                &&& c != '\n' ==> after.lines == self.lines
                &&& c == '\n' ==> {
                    &&& m == if n < 5000 {
                        n + 1
                    } else {
                        5000
                    }
                    &&& after.lines.last().len() == 0
                    &&& after.cursor_col == self.cursor_col
                    &&& forall|i: int|
                        #![trigger after.lines[i]]
                        0 <= i < m - 1 ==> after.lines[i] == self.lines[i + n + 1 - m]
                }
                &&& c == '\r' ==> after.cursor_col == 0
                &&& c == '\u{8}' ==> after.cursor_col == if self.cursor_col > 0 {
                    self.cursor_col - 1
                } else {
                    0
                }
                &&& c == '\t' ==> after.cursor_col % 8 == 0 && self.cursor_col < after.cursor_col
                    <= self.cursor_col + 8
                &&& c != '\n' && c != '\r' && c != '\u{8}' && c != '\t' ==> after == self
            }),
    {
        assert(seq![c].drop_first() =~= Seq::empty());
        reveal_with_fuel(ScreenView::advance_all, 2);
    }

    /// What a CSI sequence erases: with K the last line from the cursor on;
    /// with J, where its parameters begin with 2 or 3, the whole screen and
    /// its history, down to one empty line with the cursor at its start; and
    /// nothing with any other final character or parameter.
    pub proof fn csi_erases(self, params: Seq<char>, last: char)
        requires
            self.wf(),
            self.esc == EscView::Ground,
            forall|i: int| 0 <= i < params.len() ==> 0x20 <= #[trigger] params[i] as u32 <= 0x3f,
            0x40 <= last as u32 <= 0x7e,
        ensures
            ({
                let after = self.advance_all(seq!['\u{1b}', '['] + params + seq![last]);
                let line = self.lines.last();
                let now = after.lines.last();
                let clears = last == 'J' && params.len() > 0 && (params[0] == '2' || params[0]
                    == '3');
                &&& after.esc == EscView::Ground
                &&& after.pending == self.pending
                &&& last == 'K' ==> {
                    &&& after.cursor_col == self.cursor_col
                    &&& after.lines.len() == self.lines.len()
                    &&& forall|i: int|
                        0 <= i < self.lines.len() - 1 ==> after.lines[i] == #[trigger] self.lines[i]
                    &&& now.len() == if self.cursor_col < line.len() {
                        self.cursor_col
                    } else {
                        line.len() as int
                    }
                    &&& forall|j: int| 0 <= j < now.len() ==> #[trigger] now[j] == line[j]
                }
                &&& clears ==> {
                    &&& after.lines.len() == 1
                    &&& after.lines[0].len() == 0
                    &&& after.cursor_col == 0
                }
                &&& last != 'K' && !clears ==> after == self
            }),
    {
        self.csi_is_swallowed(params, last);
    }

    /// A CSI sequence that breaks off, at a control character or past ASCII,
    /// leaves the screen as it was, that character included.
    pub proof fn broken_csi_is_dropped(self, params: Seq<char>, broken: char)
        requires
            self.esc == EscView::Ground,
            forall|i: int| 0 <= i < params.len() ==> 0x20 <= #[trigger] params[i] as u32 <= 0x3f,
            (broken as u32) < 0x20 || broken as u32 > 0x7e,
        ensures
            self.advance_all(seq!['\u{1b}', '['] + params + seq![broken]) == self,
    {
        let open = seq!['\u{1b}', '['];
        let inside = ScreenView { esc: EscView::Csi { params: Seq::empty() }, ..self };
        assert(self.advance_all(open) == inside) by {
            assert(open.drop_first() =~= seq!['[']);
            assert(seq!['['].drop_first() =~= Seq::empty());
            reveal_with_fuel(ScreenView::advance_all, 3);
        }
        inside.lemma_csi_collects(Seq::empty(), params);
        assert(Seq::empty() + params =~= params);
        let before = inside.advance_all(params);
        assert(before.advance_all(seq![broken]) == self) by {
            assert(seq![broken].drop_first() =~= Seq::empty());
            reveal_with_fuel(ScreenView::advance_all, 2);
        }
        self.lemma_advance_all_concat(open, params);
        self.lemma_advance_all_concat(open + params, seq![broken]);
    }

    /// The window ends `offset` lines above the last one, or at the oldest
    /// line where there are not as many, and goes up `rows` lines or as far as
    /// there are any.
    pub proof fn windows_end_above_the_bottom(self, rows: nat, offset: nat, i: int)
        requires
            self.wf(),
        ensures
            ({
                let n = self.lines.len() as int;
                let shown = self.window(rows as int, offset as int);
                let up: int = if offset < n {
                    offset as int
                } else {
                    n - 1
                };
                &&& shown.len() == if rows < n - up {
                    rows as int
                } else {
                    n - up
                }
                &&& 0 <= i < shown.len() ==> shown[shown.len() - 1 - i] == self.lines[n - 1 - up
                    - i]
            }),
    {
    }

    /// A new screen holds one empty line, has its cursor at the start and waits
    /// for nothing, so that the first text lands in its first columns.
    pub proof fn new_screens_are_empty(text: Seq<char>)
        requires
            text.len() > 0,
            forall|i: int|
                0 <= i < text.len() ==> #[trigger] text[i] as u32 >= 0x20 && text[i] != '\u{7f}',
        ensures
            ({
                let screen = ScreenView::fresh();
                let after = screen.feed(vstd::utf8::encode_utf8(text));
                &&& screen.lines.len() == 1 && screen.lines[0].len() == 0 && screen.cursor_col == 0
                &&& after.lines == seq![text]
                &&& after.cursor_col == text.len()
                &&& after.pending.len() == 0
            }),
    {
        let screen = ScreenView::fresh();
        screen.feeding_text(text);
        screen.printing_goes_by_columns(text);
        let after = screen.advance_all(text);
        assert(after.lines[0] =~= text);
        assert(after.lines =~= seq![text]);
    }
}

impl ScreenView {
    /// Whatever the bytes are, they can be fed while eight columns for each of
    /// them still fit behind the cursor.
    pub proof fn short_feeds_have_room(self, bytes: Seq<u8>)
        requires
            self.wf(),
            self.cursor_col + 8 * (self.pending.len() + bytes.len()) <= usize::MAX,
        ensures
            self.has_room(bytes),
            self.feed(bytes).cursor_col <= usize::MAX,
    {
        self.feeding_moves_the_cursor_little(bytes);
    }
}

impl ScreenView {
    /// Outside escape sequences exactly the characters from the space on, DEL
    /// left out, print: they and no others put themselves under the cursor and
    /// move it on by one.
    pub proof fn what_prints(self, c: char)
        requires
            self.wf(),
            self.esc == EscView::Ground,
        ensures
            printable(c) <==> c as u32 >= 0x20 && c != '\u{7f}',
            printable(c) ==> self.advance(c).lines.last()[self.cursor_col] == c && self.advance(
                c,
            ).cursor_col == self.cursor_col + 1,
            !printable(c) && c != '\n' ==> self.advance(c).lines == self.lines,
    {
    }
}

} // verus!
