//! What a frame shows, in cells: backgrounds, selection, decorations and text
//! batched into runs, and the cursor.

use alacritty_terminal::index::{Column, Line, Point};
use alacritty_terminal::selection::SelectionRange as GridRange;
use alacritty_terminal::term::cell::Flags;
use alacritty_terminal::term::color::Colors;
use vstd::prelude::*;

use crate::colors::{indexed, resolve, Color, NamedColor, Palette, Rgb};

verus! {

/// The attributes of a cell that painting asks about.
#[derive(Clone, Copy, Debug, PartialEq, Eq, Structural)]
pub struct CellFlags {
    pub inverse: bool,
    pub bold: bool,
    pub italic: bool,
    /// Any member of the underline family.
    pub underline: bool,
    pub wide_char: bool,
    pub wide_char_spacer: bool,
    pub leading_wide_char_spacer: bool,
    pub dim: bool,
    pub hidden: bool,
    pub strikeout: bool,
}

/// The attributes that a word of cell flags holds.
pub open spec fn flags_of(bits: u16) -> CellFlags {
    CellFlags {
        inverse: bits & 0x1 == 0x1,
        bold: bits & 0x2 == 0x2,
        italic: bits & 0x4 == 0x4,
        underline: bits & 0x7808 != 0,
        wide_char: bits & 0x20 == 0x20,
        wide_char_spacer: bits & 0x40 == 0x40,
        leading_wide_char_spacer: bits & 0x400 == 0x400,
        dim: bits & 0x80 == 0x80,
        hidden: bits & 0x100 == 0x100,
        strikeout: bits & 0x200 == 0x200,
    }
}

/// Asks `alacritty_terminal::term::cell::Flags` for every attribute: each flag
/// is one bit of the word, `contains` tests it, and `intersects` tests the
/// five bits of the underline family at once.
#[verifier::external_body]
fn contained_flags(bits: u16) -> (flags: CellFlags)
    ensures
        flags == flags_of(bits),
{
    let f = Flags::from_bits_retain(bits);
    CellFlags {
        inverse: f.contains(Flags::INVERSE),
        bold: f.contains(Flags::BOLD),
        italic: f.contains(Flags::ITALIC),
        underline: f.intersects(Flags::ALL_UNDERLINES),
        wide_char: f.contains(Flags::WIDE_CHAR),
        wide_char_spacer: f.contains(Flags::WIDE_CHAR_SPACER),
        leading_wide_char_spacer: f.contains(Flags::LEADING_WIDE_CHAR_SPACER),
        dim: f.contains(Flags::DIM),
        hidden: f.contains(Flags::HIDDEN),
        strikeout: f.contains(Flags::STRIKEOUT),
    }
}

/// A cell of the grid: line 0 is the top of the live screen, history has
/// negative lines.
#[derive(Clone, Copy, Debug, PartialEq, Eq, Structural)]
pub struct Cell {
    pub line: i32,
    pub column: usize,
    pub c: char,
    pub fg: Color,
    pub bg: Color,
    /// The cell's flag word.
    pub flags: u16,
}

/// The selected part of the grid, both ends in it.
#[derive(Clone, Copy, Debug, PartialEq, Eq, Structural)]
pub struct SelectionRange {
    pub start_line: i32,
    pub start_column: usize,
    pub end_line: i32,
    pub end_column: usize,
    pub is_block: bool,
}

impl SelectionRange {
    /// The cell lies in the selection: in reading order between the ends, or,
    /// for a block, in the rectangle that they span.
    pub open spec fn holds(self, line: i32, column: usize) -> bool {
        &&& self.start_line <= line <= self.end_line
        &&& self.start_column <= column || (self.start_line != line && !self.is_block)
        &&& column <= self.end_column || (self.end_line != line && !self.is_block)
    }
}

/// `alacritty_terminal::selection::SelectionRange::contains`: whether a cell
/// lies between the two ends in reading order, or inside the rectangle that
/// they span when the selection is a block.
#[verifier::external_body]
fn range_contains(range: &SelectionRange, line: i32, column: usize) -> (inside: bool)
    ensures
        inside == range.holds(line, column),
{
    let start = Point::new(Line(range.start_line), Column(range.start_column));
    let end = Point::new(Line(range.end_line), Column(range.end_column));
    let grid_range = GridRange { start, end, is_block: range.is_block };
    grid_range.contains(Point::new(Line(line), Column(column)))
}

/// The part of the grid that the window shows, and what is selected.
#[derive(Clone, Copy, Debug, PartialEq, Eq)]
pub struct Viewport {
    pub rows: usize,
    /// How many lines the view is scrolled up into the history.
    pub display_offset: usize,
    pub selection: Option<SelectionRange>,
}

/// A cell as it is painted, `end` being the column behind it.
#[derive(Clone, Copy, Debug, PartialEq, Eq)]
pub struct PaintCell {
    pub row: usize,
    pub col: usize,
    pub end: usize,
    pub wide: bool,
    pub c: char,
    pub fg: Rgb,
    /// `None` lets the window show through.
    pub bg: Option<Rgb>,
    pub selected: bool,
    pub underline: bool,
    pub strikeout: bool,
    pub bold: bool,
    pub italic: bool,
    /// The character leaves a mark: it is no space and not hidden.
    pub renders: bool,
}

/// The row of the window that a line is in.
pub open spec fn window_row(line: int, view: Viewport) -> int {
    line + view.display_offset
}

/// The cell is painted at all: it is not above the window, and it is not the
/// empty half of a wide character.
pub open spec fn is_painted(cell: Cell, view: Viewport) -> bool {
    let flags = flags_of(cell.flags);
    window_row(cell.line as int, view) >= 0 && !flags.wide_char_spacer
        && !flags.leading_wide_char_spacer
}

/// How a cell is painted.
pub open spec fn paint_of(
    cell: Cell,
    view: Viewport,
    overrides: Seq<Option<(u8, u8, u8)>>,
    palette: Palette,
) -> PaintCell {
    let flags = flags_of(cell.flags);
    let fg = if flags.inverse {
        cell.bg
    } else {
        cell.fg
    };
    let bg = if flags.inverse {
        cell.fg
    } else {
        cell.bg
    };
    PaintCell {
        row: window_row(cell.line as int, view) as usize,
        col: cell.column,
        end: (cell.column + if flags.wide_char {
            2int
        } else {
            1
        }) as usize,
        wide: flags.wide_char,
        c: cell.c,
        fg: crate::colors::resolved(fg, overrides, flags.dim, palette),
        bg: if bg == Color::Named(NamedColor::Background) {
            None
        } else {
            Some(crate::colors::resolved(bg, overrides, false, palette))
        },
        selected: view.selection matches Some(range) && range.holds(cell.line, cell.column),
        underline: flags.underline,
        strikeout: flags.strikeout,
        bold: flags.bold,
        italic: flags.italic,
        renders: cell.c != ' ' && !flags.hidden,
    }
}

/// The cells that are painted, in order.
pub open spec fn painted(
    cells: Seq<Cell>,
    view: Viewport,
    overrides: Seq<Option<(u8, u8, u8)>>,
    palette: Palette,
) -> Seq<PaintCell>
    decreases cells.len(),
{
    if cells.len() == 0 {
        Seq::empty()
    } else {
        let before = painted(cells.drop_last(), view, overrides, palette);
        if is_painted(cells.last(), view) {
            before.push(paint_of(cells.last(), view, overrides, palette))
        } else {
            before
        }
    }
}

/// How many cells come before the first one below the window.
pub open spec fn cells_before_bottom(cells: Seq<Cell>, view: Viewport) -> int
    decreases cells.len(),
{
    if cells.len() == 0 || window_row(cells[0].line as int, view) >= view.rows {
        0
    } else {
        1 + cells_before_bottom(cells.drop_first(), view)
    }
}

/// What a run of cells is painted as.
#[derive(Clone, Copy, Debug, PartialEq, Eq, Structural)]
pub enum RunKind {
    Background,
    Selection,
    Underline,
    Strikeout,
}

/// Neighboring cells of one row that are painted alike; `end` is the column
/// behind the last of them.
#[derive(Clone, Copy, Debug, PartialEq, Eq, Structural)]
pub struct Run {
    pub row: usize,
    pub start: usize,
    pub end: usize,
    pub rgb: Rgb,
    pub kind: RunKind,
}

/// `run` continues `last`.
pub open spec fn continues(last: Run, run: Run) -> bool {
    last.row == run.row && last.end == run.start && last.rgb == run.rgb && last.kind == run.kind
}

/// The runs with one more: it joins the last one where it continues it and
/// that one is open, and stands by itself otherwise.
pub open spec fn with_run(runs: Seq<Run>, open: bool, run: Run) -> Seq<Run> {
    if open && runs.len() > 0 && continues(runs.last(), run) {
        runs.drop_last().push(Run { end: run.end, ..runs.last() })
    } else {
        runs.push(run)
    }
}

/// The run that one painted cell makes.
pub open spec fn cell_run(cell: PaintCell, rgb: Rgb, kind: RunKind) -> Run {
    Run { row: cell.row, start: cell.col, end: cell.end, rgb, kind }
}

/// Background runs: a cell joins the run of the cell before it.
pub open spec fn background_runs(cells: Seq<PaintCell>) -> Seq<Run>
    decreases cells.len(),
{
    if cells.len() == 0 {
        Seq::empty()
    } else {
        let before = background_runs(cells.drop_last());
        match cells.last().bg {
            Some(rgb) => with_run(
                before,
                cells.len() > 1 && cells[cells.len() - 2].bg is Some,
                cell_run(cells.last(), rgb, RunKind::Background),
            ),
            None => before,
        }
    }
}

/// Selection runs, all in the palette's highlight.
pub open spec fn selection_runs(cells: Seq<PaintCell>, rgb: Rgb) -> Seq<Run>
    decreases cells.len(),
{
    if cells.len() == 0 {
        Seq::empty()
    } else {
        let before = selection_runs(cells.drop_last(), rgb);
        if cells.last().selected {
            with_run(before, true, cell_run(cells.last(), rgb, RunKind::Selection))
        } else {
            before
        }
    }
}

/// Decoration runs in the text's color: for each cell its underline, then its
/// strikeout.
pub open spec fn decoration_runs(cells: Seq<PaintCell>) -> Seq<Run>
    decreases cells.len(),
{
    if cells.len() == 0 {
        Seq::empty()
    } else {
        let cell = cells.last();
        let before = decoration_runs(cells.drop_last());
        let underlined = if cell.underline {
            with_run(before, true, cell_run(cell, cell.fg, RunKind::Underline))
        } else {
            before
        };
        if cell.strikeout {
            with_run(underlined, true, cell_run(cell, cell.fg, RunKind::Strikeout))
        } else {
            underlined
        }
    }
}

/// Neighboring characters of one row in one style.
#[derive(Clone, Debug)]
pub struct TextRun {
    pub row: usize,
    pub col: usize,
    pub next_col: usize,
    pub text: Vec<char>,
    pub fg: Rgb,
    pub bold: bool,
    pub italic: bool,
}

/// The model of a text run.
#[verifier::ext_equal]
pub struct TextRunView {
    pub row: usize,
    pub col: usize,
    pub next_col: usize,
    pub text: Seq<char>,
    pub fg: Rgb,
    pub bold: bool,
    pub italic: bool,
}

impl View for TextRun {
    type V = TextRunView;

    open spec fn view(&self) -> TextRunView {
        TextRunView {
            row: self.row,
            col: self.col,
            next_col: self.next_col,
            text: self.text@,
            fg: self.fg,
            bold: self.bold,
            italic: self.italic,
        }
    }
}

pub open spec fn text_views(runs: Seq<TextRun>) -> Seq<TextRunView> {
    runs.map_values(|run: TextRun| run@)
}

/// `cell` continues the text of `last`. A wide character never does.
pub open spec fn continues_text(last: TextRunView, cell: PaintCell) -> bool {
    &&& last.row == cell.row
    &&& last.next_col == cell.col
    &&& last.fg == cell.fg
    &&& last.bold == cell.bold
    &&& last.italic == cell.italic
    &&& !cell.wide
}

/// Text runs: a character joins the run of the cell before it, unless one of
/// the two is wide; spaces and hidden cells only break runs.
pub open spec fn text_runs(cells: Seq<PaintCell>) -> Seq<TextRunView>
    decreases cells.len(),
{
    if cells.len() == 0 {
        Seq::empty()
    } else {
        let cell = cells.last();
        let before = text_runs(cells.drop_last());
        if !cell.renders {
            before
        } else if before.len() > 0 && leaves_text_open(cells.drop_last()) && continues_text(
            before.last(),
            cell,
        ) {
            before.drop_last().push(
                TextRunView {
                    text: before.last().text.push(cell.c),
                    next_col: cell.end,
                    ..before.last()
                },
            )
        } else {
            before.push(
                TextRunView {
                    row: cell.row,
                    col: cell.col,
                    next_col: cell.end,
                    text: seq![cell.c],
                    fg: cell.fg,
                    bold: cell.bold,
                    italic: cell.italic,
                },
            )
        }
    }
}

/// The last cell leaves its text run open: it renders and is not wide.
pub open spec fn leaves_text_open(cells: Seq<PaintCell>) -> bool {
    cells.len() > 0 && cells.last().renders && !cells.last().wide
}

/// The cursor as the terminal wants it.
#[derive(Clone, Copy, Debug, PartialEq, Eq, Structural)]
pub enum CursorShape {
    Block,
    Underline,
    Beam,
    HollowBlock,
    Hidden,
}

/// The cursor as it is painted.
#[derive(Clone, Copy, Debug, PartialEq, Eq, Structural)]
pub enum CursorMark {
    /// A hollow outline while the window is unfocused.
    Outline,
    Beam,
    Underline,
    /// A translucent block, so that the glyph beneath stays readable.
    Block,
}

/// Where the cursor is, in grid lines, and its shape.
#[derive(Clone, Copy, Debug, PartialEq, Eq, Structural)]
pub struct Cursor {
    pub line: i32,
    pub column: usize,
    pub shape: CursorShape,
}

/// The cursor's mark and its row; none when the cursor is hidden or scrolled
/// off the window.
pub open spec fn cursor_mark(cursor: Cursor, view: Viewport, shown: bool, focused: bool) -> Option<
    (usize, CursorMark),
> {
    let row = window_row(cursor.line as int, view);
    if cursor.shape == CursorShape::Hidden || !shown || !(0 <= row < view.rows) {
        None
    } else {
        Some(
            (
                row as usize,
                if !focused {
                    CursorMark::Outline
                } else {
                    match cursor.shape {
                        CursorShape::Beam => CursorMark::Beam,
                        CursorShape::Underline => CursorMark::Underline,
                        _ => CursorMark::Block,
                    }
                },
            ),
        )
    }
}

/// A frame in cells, its layers in painting order: backgrounds, selection,
/// text, decorations, cursor.
#[derive(Clone, Debug)]
pub struct Frame {
    pub backgrounds: Vec<Run>,
    pub selection: Vec<Run>,
    pub text: Vec<TextRun>,
    pub decorations: Vec<Run>,
    /// The row and the mark of the cursor, where it shows.
    pub cursor: Option<(usize, CursorMark)>,
    pub cursor_rgb: Rgb,
}

fn paint_cell(cell: &Cell, view: &Viewport, overrides: &Colors, palette: &Palette) -> (paint: Option<
    PaintCell,
>)
    requires
        view.display_offset <= i32::MAX,
        cell.column + 2 <= usize::MAX,
        window_row(cell.line as int, *view) < view.rows,
    ensures
        paint == if is_painted(*cell, *view) {
            Some(
                paint_of(*cell, *view, crate::colors::override_slots(*overrides), *palette),
            )
        } else {
            None
        },
{
    let row: i64 = cell.line as i64 + view.display_offset as i64;
    if row < 0 {
        return None;
    }
    let flags = contained_flags(cell.flags);
    if flags.wide_char_spacer || flags.leading_wide_char_spacer {
        return None;
    }
    let (fg, bg) = if flags.inverse {
        (cell.bg, cell.fg)
    } else {
        (cell.fg, cell.bg)
    };
    let width: usize = if flags.wide_char {
        2
    } else {
        1
    };
    Some(
        PaintCell {
            row: row as usize,
            col: cell.column,
            end: cell.column + width,
            wide: flags.wide_char,
            c: cell.c,
            fg: resolve(fg, overrides, flags.dim, palette),
            bg: if bg == Color::Named(NamedColor::Background) {
                None
            } else {
                Some(resolve(bg, overrides, false, palette))
            },
            selected: match &view.selection {
                Some(range) => range_contains(range, cell.line, cell.column),
                None => false,
            },
            underline: flags.underline,
            strikeout: flags.strikeout,
            bold: flags.bold,
            italic: flags.italic,
            renders: cell.c != ' ' && !flags.hidden,
        },
    )
}

fn push_run(runs: &mut Vec<Run>, open: bool, run: Run)
    ensures
        final(runs)@ == with_run(old(runs)@, open, run),
{
    let n: usize = runs.len();
    if open && n > 0 {
        let last = runs[n - 1];
        if last.row == run.row && last.end == run.start && last.rgb == run.rgb && last.kind
            == run.kind {
            runs.set(n - 1, Run { end: run.end, ..last });
            assert(runs@ =~= with_run(old(runs)@, open, run));
            return ;
        }
    }
    runs.push(run);
}

fn push_text(runs: &mut Vec<TextRun>, cell: &PaintCell, Ghost(before): Ghost<Seq<PaintCell>>, open: bool)
    requires
        text_views(old(runs)@) == text_runs(before),
        open == leaves_text_open(before),
    ensures
        text_views(final(runs)@) == text_runs(before.push(*cell)),
{
    let ghost cells = before.push(*cell);
    assert(cells.drop_last() =~= before);
    if !cell.renders {
        return ;
    }
    let ghost old_views = text_views(runs@);
    if open && !cell.wide {
        let n: usize = runs.len();
        if n > 0 && runs[n - 1].row == cell.row && runs[n - 1].next_col == cell.col && runs[n
            - 1].fg == cell.fg && runs[n - 1].bold == cell.bold && runs[n - 1].italic
            == cell.italic {
            if let Some(mut run) = runs.pop() {
                assert(run@ == old_views.last());
                run.text.push(cell.c);
                run.next_col = cell.end;
                runs.push(run);
                assert(text_views(runs@) =~= text_runs(cells));
            }
            return ;
        }
        assert(n > 0 ==> old_views.last() == runs@[n - 1]@);
    }
    let mut text: Vec<char> = Vec::new();
    text.push(cell.c);
    assert(text@ =~= seq![cell.c]);
    runs.push(
        TextRun {
            row: cell.row,
            col: cell.col,
            next_col: cell.end,
            text,
            fg: cell.fg,
            bold: cell.bold,
            italic: cell.italic,
        },
    );
    assert(text_views(runs@) =~= text_runs(cells));
}

fn mark_cursor(cursor: &Cursor, view: &Viewport, shown: bool, focused: bool) -> (mark: Option<
    (usize, CursorMark),
>)
    requires
        view.display_offset <= i32::MAX,
    ensures
        mark == cursor_mark(*cursor, *view, shown, focused),
{
    let row: i64 = cursor.line as i64 + view.display_offset as i64;
    if cursor.shape == CursorShape::Hidden || !shown || row < 0 || row as u64 >= view.rows as u64 {
        return None;
    }
    let mark = if !focused {
        CursorMark::Outline
    } else {
        match cursor.shape {
            CursorShape::Beam => CursorMark::Beam,
            CursorShape::Underline => CursorMark::Underline,
            _ => CursorMark::Block,
        }
    };
    Some((row as usize, mark))
}

/// Every count that painting the cells makes fits its machine type.
pub open spec fn paintable(cells: Seq<Cell>, view: Viewport) -> bool {
    &&& view.display_offset <= i32::MAX
    &&& forall|i: int| 0 <= i < cells.len() ==> #[trigger] cells[i].column + 2 <= usize::MAX
}

/// The frame is that of the cells that the window shows.
pub open spec fn is_frame(
    frame: Frame,
    cells: Seq<Cell>,
    view: Viewport,
    cursor: Cursor,
    shown: bool,
    focused: bool,
    slots: Seq<Option<(u8, u8, u8)>>,
    palette: Palette,
) -> bool {
    let shown_cells = painted(
        cells.take(cells_before_bottom(cells, view)),
        view,
        slots,
        palette,
    );
    &&& frame.backgrounds@ == background_runs(shown_cells)
    &&& frame.selection@ == selection_runs(shown_cells, palette.selection)
    &&& text_views(frame.text@) == text_runs(shown_cells)
    &&& frame.decorations@ == decoration_runs(shown_cells)
    &&& frame.cursor == cursor_mark(cursor, view, shown, focused)
    &&& frame.cursor_rgb == crate::colors::slot_color(NamedColor::Cursor.slot(), slots, palette)
}

/// One frame: the cells from the top of the window to its bottom, batched into
/// runs, and the cursor. `shown` is the terminal's show-cursor mode.
pub fn display_list(
    cells: &[Cell],
    view: &Viewport,
    cursor: &Cursor,
    shown: bool,
    focused: bool,
    overrides: &Colors,
    palette: &Palette,
) -> (frame: Frame)
    requires
        paintable(cells@, *view),
    ensures
        is_frame(
            frame,
            cells@,
            *view,
            *cursor,
            shown,
            focused,
            crate::colors::override_slots(*overrides),
            *palette,
        ),
{
    let ghost slots = crate::colors::override_slots(*overrides);
    let mut backgrounds: Vec<Run> = Vec::new();
    let mut selection: Vec<Run> = Vec::new();
    let mut text: Vec<TextRun> = Vec::new();
    let mut decorations: Vec<Run> = Vec::new();
    let mut had_bg = false;
    let mut text_open = false;
    let ghost mut done: Seq<PaintCell> = Seq::empty();
    assert(text_views(text@) =~= text_runs(done));
    assert(done =~= painted(cells@.take(0), *view, slots, *palette));
    let mut i: usize = 0;
    assert(cells@.skip(0) =~= cells@);
    while i < cells.len()
        invariant
            i <= cells@.len(),
            paintable(cells@, *view),
            slots == crate::colors::override_slots(*overrides),
            cells_before_bottom(cells@, *view) == i + cells_before_bottom(
                cells@.skip(i as int),
                *view,
            ),
            done == painted(cells@.take(i as int), *view, slots, *palette),
            had_bg == (done.len() > 0 && done.last().bg is Some),
            text_open == leaves_text_open(done),
            backgrounds@ == background_runs(done),
            selection@ == selection_runs(done, palette.selection),
            text_views(text@) == text_runs(done),
            decorations@ == decoration_runs(done),
        ensures
            i <= cells@.len(),
            i == cells_before_bottom(cells@, *view),
            done == painted(cells@.take(i as int), *view, slots, *palette),
            backgrounds@ == background_runs(done),
            selection@ == selection_runs(done, palette.selection),
            text_views(text@) == text_runs(done),
            decorations@ == decoration_runs(done),
        decreases cells@.len() - i,
    {
        let cell = cells[i];
        let row: i64 = cell.line as i64 + view.display_offset as i64;
        assert(cells@.skip(i as int)[0] == cell);
        if row >= 0 && row as u64 >= view.rows as u64 {
            break ;
        }
        assert(cells@.skip(i as int).drop_first() =~= cells@.skip(i + 1));
        assert(cells@.take(i + 1).drop_last() =~= cells@.take(i as int));
        if let Some(paint) = paint_cell(&cell, view, overrides, palette) {
            let ghost next = done.push(paint);
            assert(next.drop_last() =~= done);
            if let Some(rgb) = paint.bg {
                push_run(
                    &mut backgrounds,
                    had_bg,
                    Run {
                        row: paint.row,
                        start: paint.col,
                        end: paint.end,
                        rgb,
                        kind: RunKind::Background,
                    },
                );
            }
            had_bg = paint.bg.is_some();
            if paint.selected {
                push_run(
                    &mut selection,
                    true,
                    Run {
                        row: paint.row,
                        start: paint.col,
                        end: paint.end,
                        rgb: palette.selection,
                        kind: RunKind::Selection,
                    },
                );
            }
            if paint.underline {
                push_run(
                    &mut decorations,
                    true,
                    Run {
                        row: paint.row,
                        start: paint.col,
                        end: paint.end,
                        rgb: paint.fg,
                        kind: RunKind::Underline,
                    },
                );
            }
            if paint.strikeout {
                push_run(
                    &mut decorations,
                    true,
                    Run {
                        row: paint.row,
                        start: paint.col,
                        end: paint.end,
                        rgb: paint.fg,
                        kind: RunKind::Strikeout,
                    },
                );
            }
            push_text(&mut text, &paint, Ghost(done), text_open);
            text_open = paint.renders && !paint.wide;
            proof {
                done = next;
            }
        }
        i = i + 1;
    }
    Frame {
        backgrounds,
        selection,
        text,
        decorations,
        cursor: mark_cursor(cursor, view, shown, focused),
        cursor_rgb: indexed(NamedColor::Cursor.index(), overrides, palette),
    }
}

/// Some run of the kind paints the column of the row in the color.
pub open spec fn paints(runs: Seq<Run>, row: usize, x: usize, rgb: Rgb, kind: RunKind) -> bool {
    exists|k: int|
        0 <= k < runs.len() && run_paints(#[trigger] runs[k], row, x, rgb, kind)
}

pub open spec fn run_paints(run: Run, row: usize, x: usize, rgb: Rgb, kind: RunKind) -> bool {
    run.row == row && run.start <= x < run.end && run.rgb == rgb && run.kind == kind
}

/// The cell lies on the column of the row.
pub open spec fn lies_on(cell: PaintCell, row: usize, x: usize) -> bool {
    cell.row == row && cell.col <= x < cell.end
}

/// Joining or not, one more run adds what it paints and takes nothing away.
proof fn lemma_with_run_paints(
    runs: Seq<Run>,
    open: bool,
    run: Run,
    row: usize,
    x: usize,
    rgb: Rgb,
    kind: RunKind,
)
    requires
        run.start <= run.end,
        forall|k: int| 0 <= k < runs.len() ==> (#[trigger] runs[k]).start <= runs[k].end,
    ensures
        paints(with_run(runs, open, run), row, x, rgb, kind) <==> paints(runs, row, x, rgb, kind)
            || run_paints(run, row, x, rgb, kind),
        forall|k: int|
            0 <= k < with_run(runs, open, run).len() ==> (#[trigger] with_run(
                runs,
                open,
                run,
            )[k]).start <= with_run(runs, open, run)[k].end,
{
    let after = with_run(runs, open, run);
    let last = after.len() - 1;
    if open && runs.len() > 0 && continues(runs.last(), run) {
        assert(run_paints(after[last], row, x, rgb, kind) <==> run_paints(
            runs[last],
            row,
            x,
            rgb,
            kind,
        ) || run_paints(run, row, x, rgb, kind));
        assert(forall|k: int| 0 <= k < last ==> after[k] == runs[k]);
    } else {
        assert(after[last] == run);
        assert(forall|k: int| 0 <= k < runs.len() ==> after[k] == runs[k]);
    }
    if paints(runs, row, x, rgb, kind) {
        let k = choose|k: int|
            0 <= k < runs.len() && run_paints(#[trigger] runs[k], row, x, rgb, kind);
        assert(run_paints(after[k], row, x, rgb, kind));
    }
    if run_paints(run, row, x, rgb, kind) {
        assert(run_paints(after[last], row, x, rgb, kind));
    }
    if paints(after, row, x, rgb, kind) {
        let k = choose|k: int|
            0 <= k < after.len() && run_paints(#[trigger] after[k], row, x, rgb, kind);
        if k < last {
            assert(run_paints(runs[k], row, x, rgb, kind));
        }
    }
}

proof fn lemma_background_runs(cells: Seq<PaintCell>, row: usize, x: usize, rgb: Rgb)
    requires
        forall|i: int| 0 <= i < cells.len() ==> (#[trigger] cells[i]).col <= cells[i].end,
    ensures
        forall|k: int|
            0 <= k < background_runs(cells).len() ==> (#[trigger] background_runs(cells)[k]).start
                <= background_runs(cells)[k].end,
        paints(background_runs(cells), row, x, rgb, RunKind::Background) <==> exists|i: int|
            0 <= i < cells.len() && lies_on(#[trigger] cells[i], row, x) && cells[i].bg == Some(
                rgb,
            ),
    decreases cells.len(),
{
    if cells.len() > 0 {
        let before = cells.drop_last();
        assert(forall|i: int| 0 <= i < before.len() ==> before[i] == cells[i]);
        lemma_background_runs(before, row, x, rgb);
        let last = cells.last();
        assert(last.col <= last.end);
        if let Some(color) = last.bg {
            lemma_with_run_paints(
                background_runs(before),
                cells.len() > 1 && cells[cells.len() - 2].bg is Some,
                cell_run(last, color, RunKind::Background),
                row,
                x,
                rgb,
                RunKind::Background,
            );
        }
    }
}

/// The backgrounds paint exactly the cells that have one, each in its color.
pub proof fn backgrounds_cover_cells(cells: Seq<PaintCell>, row: usize, x: usize, rgb: Rgb)
    requires
        forall|i: int| 0 <= i < cells.len() ==> (#[trigger] cells[i]).col <= cells[i].end,
    ensures
        paints(background_runs(cells), row, x, rgb, RunKind::Background) <==> exists|i: int|
            0 <= i < cells.len() && lies_on(#[trigger] cells[i], row, x) && cells[i].bg == Some(
                rgb,
            ),
{
    lemma_background_runs(cells, row, x, rgb);
}

proof fn lemma_selection_runs(cells: Seq<PaintCell>, highlight: Rgb, row: usize, x: usize)
    requires
        forall|i: int| 0 <= i < cells.len() ==> (#[trigger] cells[i]).col <= cells[i].end,
    ensures
        forall|k: int|
            0 <= k < selection_runs(cells, highlight).len() ==> (#[trigger] selection_runs(
                cells,
                highlight,
            )[k]).start <= selection_runs(cells, highlight)[k].end,
        paints(selection_runs(cells, highlight), row, x, highlight, RunKind::Selection)
            <==> exists|i: int|
            0 <= i < cells.len() && lies_on(#[trigger] cells[i], row, x) && cells[i].selected,
    decreases cells.len(),
{
    if cells.len() > 0 {
        let before = cells.drop_last();
        assert(forall|i: int| 0 <= i < before.len() ==> before[i] == cells[i]);
        lemma_selection_runs(before, highlight, row, x);
        let last = cells.last();
        assert(last.col <= last.end);
        if last.selected {
            lemma_with_run_paints(
                selection_runs(before, highlight),
                true,
                cell_run(last, highlight, RunKind::Selection),
                row,
                x,
                highlight,
                RunKind::Selection,
            );
        }
    }
}

/// The highlight covers exactly the selected cells.
pub proof fn highlight_covers_selection(
    cells: Seq<PaintCell>,
    highlight: Rgb,
    row: usize,
    x: usize,
)
    requires
        forall|i: int| 0 <= i < cells.len() ==> (#[trigger] cells[i]).col <= cells[i].end,
    ensures
        paints(selection_runs(cells, highlight), row, x, highlight, RunKind::Selection)
            <==> exists|i: int|
            0 <= i < cells.len() && lies_on(#[trigger] cells[i], row, x) && cells[i].selected,
{
    lemma_selection_runs(cells, highlight, row, x);
}

/// The cell has a decoration of the kind.
pub open spec fn decorated(cell: PaintCell, kind: RunKind) -> bool {
    (kind == RunKind::Underline && cell.underline) || (kind == RunKind::Strikeout
        && cell.strikeout)
}

proof fn lemma_decoration_runs(
    cells: Seq<PaintCell>,
    row: usize,
    x: usize,
    rgb: Rgb,
    kind: RunKind,
)
    requires
        forall|i: int| 0 <= i < cells.len() ==> (#[trigger] cells[i]).col <= cells[i].end,
    ensures
        forall|k: int|
            0 <= k < decoration_runs(cells).len() ==> (#[trigger] decoration_runs(cells)[k]).start
                <= decoration_runs(cells)[k].end,
        paints(decoration_runs(cells), row, x, rgb, kind) <==> exists|i: int|
            0 <= i < cells.len() && lies_on(#[trigger] cells[i], row, x) && cells[i].fg == rgb
                && decorated(cells[i], kind),
    decreases cells.len(),
{
    if cells.len() > 0 {
        let before = cells.drop_last();
        assert(forall|i: int| 0 <= i < before.len() ==> before[i] == cells[i]);
        lemma_decoration_runs(before, row, x, rgb, kind);
        let cell = cells.last();
        assert(cell.col <= cell.end);
        let runs = decoration_runs(before);
        let underline = cell_run(cell, cell.fg, RunKind::Underline);
        let strikeout = cell_run(cell, cell.fg, RunKind::Strikeout);
        lemma_with_run_paints(runs, true, underline, row, x, rgb, kind);
        let underlined = if cell.underline {
            with_run(runs, true, underline)
        } else {
            runs
        };
        lemma_with_run_paints(underlined, true, strikeout, row, x, rgb, kind);
    }
}

/// Underlines and strikeouts run exactly along the cells that have them, in
/// the color of their text.
pub proof fn decorations_follow_cells(
    cells: Seq<PaintCell>,
    row: usize,
    x: usize,
    rgb: Rgb,
    kind: RunKind,
)
    requires
        forall|i: int| 0 <= i < cells.len() ==> (#[trigger] cells[i]).col <= cells[i].end,
    ensures
        paints(decoration_runs(cells), row, x, rgb, kind) <==> exists|i: int|
            0 <= i < cells.len() && lies_on(#[trigger] cells[i], row, x) && cells[i].fg == rgb
                && decorated(cells[i], kind),
{
    lemma_decoration_runs(cells, row, x, rgb, kind);
}

/// The characters of all runs, one run after the other.
pub open spec fn all_text(runs: Seq<TextRunView>) -> Seq<char>
    decreases runs.len(),
{
    if runs.len() == 0 {
        Seq::empty()
    } else {
        all_text(runs.drop_last()) + runs.last().text
    }
}

/// The characters that render, in the order of their cells.
pub open spec fn rendered(cells: Seq<PaintCell>) -> Seq<char>
    decreases cells.len(),
{
    if cells.len() == 0 {
        Seq::empty()
    } else if cells.last().renders {
        rendered(cells.drop_last()).push(cells.last().c)
    } else {
        rendered(cells.drop_last())
    }
}

/// Every character that renders is drawn once, in order, and no other is.
pub proof fn text_is_drawn_once(cells: Seq<PaintCell>)
    ensures
        all_text(text_runs(cells)) == rendered(cells),
    decreases cells.len(),
{
    if cells.len() > 0 {
        let before = cells.drop_last();
        text_is_drawn_once(before);
        if cells.last().renders {
            let runs = text_runs(cells);
            let old_runs = text_runs(before);
            if runs.len() == old_runs.len() {
                assert(runs.drop_last() =~= old_runs.drop_last());
            } else {
                assert(runs.drop_last() =~= old_runs);
            }
            assert(all_text(runs) =~= rendered(cells));
        }
    }
}

/// The run's characters stand one to a column, or it is one wide character on
/// two.
pub open spec fn on_the_grid(run: TextRunView) -> bool {
    ||| run.next_col == run.col + run.text.len()
    ||| run.next_col == run.col + 2 && run.text.len() == 1
}

/// Runs never drift off the grid: each has a column for every character, and a
/// wide character stands alone.
pub proof fn text_stays_on_the_grid(cells: Seq<PaintCell>)
    requires
        forall|i: int|
            0 <= i < cells.len() ==> (#[trigger] cells[i]).end == cells[i].col + if cells[i].wide {
                2int
            } else {
                1
            },
    ensures
        forall|k: int| 0 <= k < text_runs(cells).len() ==> on_the_grid(#[trigger] text_runs(cells)[k]),
        leaves_text_open(cells) ==> text_runs(cells).len() > 0 && text_runs(cells).last().next_col
            == text_runs(cells).last().col + text_runs(cells).last().text.len(),
    decreases cells.len(),
{
    if cells.len() > 0 {
        let before = cells.drop_last();
        assert(forall|i: int| 0 <= i < before.len() ==> before[i] == cells[i]);
        text_stays_on_the_grid(before);
        let runs = text_runs(cells);
        let old_runs = text_runs(before);
        let last = cells.last();
        assert(last.end == last.col + if last.wide {
            2int
        } else {
            1
        });
        assert forall|k: int| 0 <= k < runs.len() implies on_the_grid(#[trigger] runs[k]) by {
            if k < old_runs.len() && runs[k] == old_runs[k] {
                assert(on_the_grid(old_runs[k]));
            }
        }
    }
}

/// What is painted of a grid is as wide as its cells, so the laws above hold
/// of it; and a run never holds a space.
pub proof fn painted_cells_are_sound(
    cells: Seq<Cell>,
    view: Viewport,
    overrides: Seq<Option<(u8, u8, u8)>>,
    palette: Palette,
)
    requires
        paintable(cells, view),
    ensures
        forall|i: int|
            0 <= i < painted(cells, view, overrides, palette).len() ==> {
                let cell = #[trigger] painted(cells, view, overrides, palette)[i];
                &&& cell.end == cell.col + if cell.wide {
                    2int
                } else {
                    1
                }
                &&& cell.renders ==> cell.c != ' '
            },
    decreases cells.len(),
{
    if cells.len() > 0 {
        let before = cells.drop_last();
        assert(forall|i: int| 0 <= i < before.len() ==> before[i] == cells[i]);
        painted_cells_are_sound(before, view, overrides, palette);
        assert(cells[cells.len() - 1].column + 2 <= usize::MAX);
    }
}

/// The run draws the cell: on its row, with its character in the cell's own
/// column, in the cell's color and weight and slant.
pub open spec fn draws(run: TextRunView, cell: PaintCell) -> bool {
    &&& run.row == cell.row
    &&& run.col <= cell.col < run.col + run.text.len()
    &&& run.text[cell.col - run.col] == cell.c
    &&& run.fg == cell.fg
    &&& run.bold == cell.bold
    &&& run.italic == cell.italic
}

proof fn lemma_text_step(cells: Seq<PaintCell>)
    requires
        cells.len() > 0,
        forall|i: int|
            0 <= i < cells.len() ==> (#[trigger] cells[i]).end == cells[i].col + if cells[i].wide {
                2int
            } else {
                1
            },
    ensures
        ({
            let before = cells.drop_last();
            let old_runs = text_runs(before);
            let runs = text_runs(cells);
            let n = old_runs.len();
            let cell = cells.last();
            &&& !cell.renders ==> runs == old_runs
            &&& cell.renders ==> runs.len() > 0 && draws(runs.last(), cell)
            &&& cell.renders ==> runs.last().col + runs.last().text.len() == cell.col + 1
            &&& forall|k: int| 0 <= k < n - 1 ==> runs[k] == #[trigger] old_runs[k]
            &&& runs.len() == n && cell.renders ==> n > 0 && runs.last().text
                == old_runs.last().text.push(cell.c) && runs.last().col == old_runs.last().col
                && runs.last().row == old_runs.last().row && runs.last().fg == old_runs.last().fg
                && runs.last().bold == old_runs.last().bold && runs.last().italic
                == old_runs.last().italic
            &&& runs.len() > n ==> runs.len() == n + 1 && runs.last().text.len() == 1
                && runs.last().col == cell.col && (n > 0 ==> runs[n - 1] == old_runs[n - 1])
            &&& runs.len() == n || runs.len() == n + 1
        }),
{
    let before = cells.drop_last();
    assert(forall|i: int| 0 <= i < before.len() ==> before[i] == cells[i]);
    text_stays_on_the_grid(before);
    let cell = cells[cells.len() - 1];
    assert(cell.end == cell.col + if cell.wide {
        2int
    } else {
        1
    });
}

/// Every character is drawn in its own place and style: some run holds the
/// character of a cell that renders in the cell's column, on its row, in its
/// color, weight and slant.
pub proof fn text_keeps_place_and_style(cells: Seq<PaintCell>, i: int)
    requires
        forall|i: int|
            0 <= i < cells.len() ==> (#[trigger] cells[i]).end == cells[i].col + if cells[i].wide {
                2int
            } else {
                1
            },
        0 <= i < cells.len(),
        cells[i].renders,
    ensures
        exists|k: int|
            0 <= k < text_runs(cells).len() && draws(#[trigger] text_runs(cells)[k], cells[i]),
    decreases cells.len(),
{
    let runs = text_runs(cells);
    let before = cells.drop_last();
    let old_runs = text_runs(before);
    let n = old_runs.len();
    assert(forall|i: int| 0 <= i < before.len() ==> before[i] == cells[i]);
    lemma_text_step(cells);
    if i < cells.len() - 1 {
        text_keeps_place_and_style(before, i);
        let k = choose|k: int| 0 <= k < n && draws(#[trigger] old_runs[k], before[i]);
        if k < n - 1 {
            assert(runs[k] == old_runs[k]);
        }
        assert(draws(runs[k], cells[i]));
    } else {
        assert(draws(runs[runs.len() - 1], cells[i]));
    }
}

/// A run draws nothing of its own: every character in it is that of a cell
/// that renders, in that cell's place and style.
pub proof fn drawn_characters_are_cells(cells: Seq<PaintCell>, k: int, j: int)
    requires
        forall|i: int|
            0 <= i < cells.len() ==> (#[trigger] cells[i]).end == cells[i].col + if cells[i].wide {
                2int
            } else {
                1
            },
        0 <= k < text_runs(cells).len(),
        0 <= j < text_runs(cells)[k].text.len(),
    ensures
        exists|i: int|
            0 <= i < cells.len() && (#[trigger] cells[i]).renders && draws(
                text_runs(cells)[k],
                cells[i],
            ) && cells[i].col == text_runs(cells)[k].col + j,
    decreases cells.len(),
{
    let runs = text_runs(cells);
    let before = cells.drop_last();
    let old_runs = text_runs(before);
    let n = old_runs.len();
    let last: int = cells.len() - 1;
    assert(forall|i: int| 0 <= i < before.len() ==> before[i] == cells[i]);
    lemma_text_step(cells);
    if cells[last].renders && k == runs.len() - 1 && j == runs[k].text.len() - 1 {
        assert(cells[last].renders && draws(runs[k], cells[last]));
    } else {
        if k < n - 1 {
            assert(runs[k] == old_runs[k]);
        }
        drawn_characters_are_cells(before, k, j);
        let i = choose|i: int|
            0 <= i < before.len() && (#[trigger] before[i]).renders && draws(old_runs[k], before[i])
                && before[i].col == old_runs[k].col + j;
        assert(cells[i].renders && draws(runs[k], cells[i]));
    }
}

/// Text is batched: two cells after one another that touch on one row, share
/// their style and are both narrow are drawn by one run. A wide character has
/// a run to itself.
pub proof fn like_neighbors_share_a_text_run(cells: Seq<PaintCell>, i: int)
    requires
        forall|i: int|
            0 <= i < cells.len() ==> (#[trigger] cells[i]).end == cells[i].col + if cells[i].wide {
                2int
            } else {
                1
            },
        0 <= i < cells.len() - 1,
        cells[i].renders && cells[i + 1].renders,
        !cells[i].wide && !cells[i + 1].wide,
        cells[i].row == cells[i + 1].row,
        cells[i].col + 1 == cells[i + 1].col,
        cells[i].fg == cells[i + 1].fg,
        cells[i].bold == cells[i + 1].bold,
        cells[i].italic == cells[i + 1].italic,
    ensures
        exists|k: int|
            0 <= k < text_runs(cells).len() && draws(#[trigger] text_runs(cells)[k], cells[i])
                && draws(text_runs(cells)[k], cells[i + 1]),
    decreases cells.len(),
{
    let before = cells.drop_last();
    let old_runs = text_runs(before);
    let runs = text_runs(cells);
    let n = old_runs.len();
    assert(forall|j: int| 0 <= j < before.len() ==> before[j] == cells[j]);
    lemma_text_step(cells);
    if i + 1 < cells.len() - 1 {
        like_neighbors_share_a_text_run(before, i);
        let k = choose|k: int|
            0 <= k < n && draws(#[trigger] old_runs[k], before[i]) && draws(
                old_runs[k],
                before[i + 1],
            );
        if k < n - 1 {
            assert(runs[k] == old_runs[k]);
        }
        assert(draws(runs[k], cells[i]) && draws(runs[k], cells[i + 1]));
    } else {
        lemma_text_step(before);
        text_stays_on_the_grid(before);
        assert(before.last() == cells[i]);
        assert(cells[i].end == cells[i].col + 1);
        assert(draws(old_runs.last(), cells[i]));
        assert(draws(runs[n - 1], cells[i]) && draws(runs[n - 1], cells[i + 1]));
    }
}

/// A wide character is drawn by a run that holds nothing else.
pub proof fn wide_characters_stand_alone(cells: Seq<PaintCell>, i: int)
    requires
        forall|i: int|
            0 <= i < cells.len() ==> (#[trigger] cells[i]).end == cells[i].col + if cells[i].wide {
                2int
            } else {
                1
            },
        0 <= i < cells.len(),
        cells[i].renders,
        cells[i].wide,
    ensures
        exists|k: int|
            0 <= k < text_runs(cells).len() && draws(#[trigger] text_runs(cells)[k], cells[i])
                && text_runs(cells)[k].text == seq![cells[i].c] && text_runs(cells)[k].next_col
                == cells[i].col + 2 && (i == cells.len() - 1 ==> k == text_runs(cells).len() - 1),
    decreases cells.len(),
{
    let before = cells.drop_last();
    let old_runs = text_runs(before);
    let runs = text_runs(cells);
    let n = old_runs.len();
    assert(forall|j: int| 0 <= j < before.len() ==> before[j] == cells[j]);
    lemma_text_step(cells);
    text_stays_on_the_grid(before);
    if i < cells.len() - 1 {
        wide_characters_stand_alone(before, i);
        let k = choose|k: int|
            0 <= k < n && draws(#[trigger] old_runs[k], before[i]) && old_runs[k].text
                == seq![before[i].c] && old_runs[k].next_col == before[i].col + 2 && (i
                == before.len() - 1 ==> k == n - 1);
        if k < n - 1 {
            assert(runs[k] == old_runs[k]);
        } else {
            text_stays_on_the_grid(cells);
            if runs.len() == n && cells.last().renders {
                assert(leaves_text_open(before));
                assert(old_runs.last().next_col == old_runs.last().col
                    + old_runs.last().text.len());
            }
        }
        assert(draws(runs[k], cells[i]));
    } else {
        assert(runs.last().text =~= seq![cells[i].c]);
        assert(draws(runs[runs.len() - 1], cells[i]));
    }
}

/// Painting goes cell by cell: what a part of the grid looks like does not
/// depend on the rest.
pub proof fn painting_goes_cell_by_cell(
    a: Seq<Cell>,
    b: Seq<Cell>,
    view: Viewport,
    slots: Seq<Option<(u8, u8, u8)>>,
    palette: Palette,
)
    ensures
        painted(a + b, view, slots, palette) == painted(a, view, slots, palette) + painted(
            b,
            view,
            slots,
            palette,
        ),
    decreases b.len(),
{
    if b.len() == 0 {
        assert(a + b =~= a);
        assert(painted(b, view, slots, palette) =~= Seq::empty());
        assert(painted(a, view, slots, palette) + painted(b, view, slots, palette) =~= painted(
            a,
            view,
            slots,
            palette,
        ));
    } else {
        painting_goes_cell_by_cell(a, b.drop_last(), view, slots, palette);
        assert((a + b).drop_last() =~= a + b.drop_last());
        assert(painted(a + b, view, slots, palette) =~= painted(a, view, slots, palette) + painted(
            b,
            view,
            slots,
            palette,
        ));
    }
}

/// What one cell looks like, by the bits of its flags: it is left out above
/// the window or as the empty half of a wide character, and stands in its own
/// row and columns otherwise. Inverse swaps the two colors, dim takes the text
/// color alone, and the default background lets the window show through.
pub proof fn cells_look_as_flagged(
    cell: Cell,
    view: Viewport,
    slots: Seq<Option<(u8, u8, u8)>>,
    palette: Palette,
)
    requires
        cell.column + 2 <= usize::MAX,
        cell.line + view.display_offset <= usize::MAX,
    ensures
        ({
            let seen = painted(seq![cell], view, slots, palette);
            let row = cell.line + view.display_offset;
            let inverse = cell.flags & 0x1 == 0x1;
            let front = if inverse {
                cell.bg
            } else {
                cell.fg
            };
            let back = if inverse {
                cell.fg
            } else {
                cell.bg
            };
            if row < 0 || cell.flags & 0x40 == 0x40 || cell.flags & 0x400 == 0x400 {
                seen.len() == 0
            } else {
                &&& seen.len() == 1
                &&& seen[0].row == row
                &&& seen[0].col == cell.column
                &&& seen[0].wide == (cell.flags & 0x20 == 0x20)
                &&& seen[0].end - seen[0].col == if cell.flags & 0x20 == 0x20 {
                    2int
                } else {
                    1
                }
                &&& seen[0].c == cell.c
                &&& seen[0].bold == (cell.flags & 0x2 == 0x2)
                &&& seen[0].italic == (cell.flags & 0x4 == 0x4)
                &&& seen[0].underline == (cell.flags & 0x7808 != 0)
                &&& seen[0].strikeout == (cell.flags & 0x200 == 0x200)
                &&& seen[0].renders == (cell.c != ' ' && cell.flags & 0x100 != 0x100)
                &&& seen[0].fg == crate::colors::resolved(
                    front,
                    slots,
                    cell.flags & 0x80 == 0x80,
                    palette,
                )
                &&& back == Color::Named(NamedColor::Background) ==> seen[0].bg is None
                &&& back != Color::Named(NamedColor::Background) ==> seen[0].bg == Some(
                    crate::colors::resolved(back, slots, false, palette),
                )
                &&& view.selection is None ==> !seen[0].selected
                &&& view.selection matches Some(range) ==> {
                    let after_start = range.start_line < cell.line || (range.start_line
                        == cell.line && range.start_column <= cell.column);
                    let before_end = cell.line < range.end_line || (cell.line == range.end_line
                        && cell.column <= range.end_column);
                    seen[0].selected == if range.is_block {
                        range.start_line <= cell.line <= range.end_line && range.start_column
                            <= cell.column <= range.end_column
                    } else {
                        after_start && before_end
                    }
                }
            }
        }),
{
    reveal_with_fuel(painted, 2);
    assert(seq![cell].drop_last() =~= Seq::empty());
}

/// The window shows the cells up to the first one below it.
pub proof fn the_window_ends_at_its_bottom(cells: Seq<Cell>, view: Viewport)
    ensures
        0 <= cells_before_bottom(cells, view) <= cells.len(),
        forall|i: int|
            0 <= i < cells_before_bottom(cells, view) ==> (#[trigger] cells[i]).line
                + view.display_offset < view.rows,
        cells_before_bottom(cells, view) < cells.len() ==> cells[cells_before_bottom(
            cells,
            view,
        )].line + view.display_offset >= view.rows,
    decreases cells.len(),
{
    if cells.len() > 0 && cells[0].line + view.display_offset < view.rows {
        let rest = cells.drop_first();
        the_window_ends_at_its_bottom(rest, view);
        assert forall|i: int| 0 <= i < cells_before_bottom(cells, view) implies (
        #[trigger] cells[i]).line + view.display_offset < view.rows by {
            if i > 0 {
                assert(cells[i] == rest[i - 1]);
            }
        }
        if cells_before_bottom(cells, view) < cells.len() {
            assert(cells[cells_before_bottom(cells, view)] == rest[cells_before_bottom(
                rest,
                view,
            )]);
        }
    }
}

/// A painted part has what each of its cells is painted as, and nothing else.
proof fn lemma_painted_holds(
    cells: Seq<Cell>,
    view: Viewport,
    slots: Seq<Option<(u8, u8, u8)>>,
    palette: Palette,
)
    ensures
        forall|i: int|
            0 <= i < cells.len() && is_painted(#[trigger] cells[i], view) ==> painted(
                cells,
                view,
                slots,
                palette,
            ).contains(paint_of(cells[i], view, slots, palette)),
        forall|j: int|
            0 <= j < painted(cells, view, slots, palette).len() ==> exists|i: int|
                0 <= i < cells.len() && is_painted(#[trigger] cells[i], view) && paint_of(
                    cells[i],
                    view,
                    slots,
                    palette,
                ) == #[trigger] painted(cells, view, slots, palette)[j],
    decreases cells.len(),
{
    let all = painted(cells, view, slots, palette);
    if cells.len() > 0 {
        let before = cells.drop_last();
        let old_all = painted(before, view, slots, palette);
        lemma_painted_holds(before, view, slots, palette);
        let last: int = cells.len() - 1;
        assert forall|i: int| 0 <= i < cells.len() && is_painted(
            #[trigger] cells[i],
            view,
        ) implies all.contains(paint_of(cells[i], view, slots, palette)) by {
            if i < last {
                assert(is_painted(before[i], view));
                let j = choose|j: int|
                    0 <= j < old_all.len() && old_all[j] == paint_of(
                        before[i],
                        view,
                        slots,
                        palette,
                    );
                assert(all[j] == old_all[j]);
            } else {
                assert(all[all.len() - 1] == paint_of(cells[i], view, slots, palette));
            }
        }
        assert forall|j: int| 0 <= j < all.len() implies exists|i: int|
            0 <= i < cells.len() && is_painted(#[trigger] cells[i], view) && paint_of(
                cells[i],
                view,
                slots,
                palette,
            ) == #[trigger] all[j] by {
            if j < old_all.len() {
                assert(old_all[j] == all[j]);
                let i = choose|i: int|
                    0 <= i < before.len() && is_painted(#[trigger] before[i], view) && paint_of(
                        before[i],
                        view,
                        slots,
                        palette,
                    ) == old_all[j];
                assert(is_painted(cells[i], view));
            } else {
                assert(is_painted(cells[last], view));
            }
        }
    }
}

proof fn lemma_cell_reaches_frame(
    cells: Seq<Cell>,
    view: Viewport,
    slots: Seq<Option<(u8, u8, u8)>>,
    palette: Palette,
    i: int,
) -> (m: int)
    requires
        paintable(cells, view),
        0 <= i < cells.len(),
        forall|j: int| 0 <= j <= i ==> (#[trigger] cells[j]).line + view.display_offset < view.rows,
        is_painted(cells[i], view),
    ensures
        ({
            let all = painted(
                cells.take(cells_before_bottom(cells, view)),
                view,
                slots,
                palette,
            );
            0 <= m < all.len() && all[m] == paint_of(cells[i], view, slots, palette)
        }),
{
    the_window_ends_at_its_bottom(cells, view);
    let n = cells_before_bottom(cells, view);
    if n <= i {
        assert(cells[n].line + view.display_offset < view.rows);
    }
    let part = cells.take(n);
    lemma_painted_holds(part, view, slots, palette);
    assert(part[i] == cells[i]);
    assert(is_painted(part[i], view));
    let all = painted(part, view, slots, palette);
    choose|m: int| 0 <= m < all.len() && all[m] == paint_of(cells[i], view, slots, palette)
}

/// From the grid to the frame: a cell that the window shows has its character
/// drawn on its row and in its column, bold and italic as its flags say, in
/// its text color; its background and its decorations are painted over its
/// columns, and the highlight where it is selected.
pub proof fn the_frame_shows_every_cell(
    frame: Frame,
    cells: Seq<Cell>,
    view: Viewport,
    cursor: Cursor,
    shown: bool,
    focused: bool,
    slots: Seq<Option<(u8, u8, u8)>>,
    palette: Palette,
    i: int,
    x: usize,
)
    requires
        is_frame(frame, cells, view, cursor, shown, focused, slots, palette),
        paintable(cells, view),
        0 <= i < cells.len(),
        forall|j: int| 0 <= j <= i ==> (#[trigger] cells[j]).line + view.display_offset < view.rows,
        cells[i].line + view.display_offset >= 0,
        cells[i].flags & 0x40 != 0x40,
        cells[i].flags & 0x400 != 0x400,
        cells[i].column <= x < cells[i].column + if cells[i].flags & 0x20 == 0x20 {
            2int
        } else {
            1
        },
    ensures
        ({
            let cell = cells[i];
            let row = (cell.line + view.display_offset) as usize;
            let inverse = cell.flags & 0x1 == 0x1;
            let front = crate::colors::resolved(
                if inverse {
                    cell.bg
                } else {
                    cell.fg
                },
                slots,
                cell.flags & 0x80 == 0x80,
                palette,
            );
            let back = if inverse {
                cell.fg
            } else {
                cell.bg
            };
            &&& cell.c != ' ' && cell.flags & 0x100 != 0x100 ==> exists|k: int|
                0 <= k < frame.text@.len() && {
                    let run = #[trigger] frame.text@[k];
                    &&& run.row == row
                    &&& run.col <= cell.column < run.col + run.text@.len()
                    &&& run.text@[cell.column - run.col] == cell.c
                    &&& run.bold == (cell.flags & 0x2 == 0x2)
                    &&& run.italic == (cell.flags & 0x4 == 0x4)
                    &&& run.fg == front
                }
            &&& back != Color::Named(NamedColor::Background) ==> paints(
                frame.backgrounds@,
                row,
                x,
                crate::colors::resolved(back, slots, false, palette),
                RunKind::Background,
            )
            &&& cell.flags & 0x7808 != 0 ==> paints(
                frame.decorations@,
                row,
                x,
                front,
                RunKind::Underline,
            )
            &&& cell.flags & 0x200 == 0x200 ==> paints(
                frame.decorations@,
                row,
                x,
                front,
                RunKind::Strikeout,
            )
            &&& view.selection matches Some(range) ==> range.holds(cell.line, cell.column)
                ==> paints(frame.selection@, row, x, palette.selection, RunKind::Selection)
        }),
{
    let n = cells_before_bottom(cells, view);
    let part = cells.take(n);
    let all = painted(part, view, slots, palette);
    the_window_ends_at_its_bottom(cells, view);
    assert(paintable(part, view));
    painted_cells_are_sound(part, view, slots, palette);
    assert(cells[i].column + 2 <= usize::MAX);
    let m = lemma_cell_reaches_frame(cells, view, slots, palette, i);
    let cell = cells[i];
    let paint = paint_of(cell, view, slots, palette);
    assert(all[m] == paint);
    assert(lies_on(all[m], paint.row, x));
    assert(forall|j: int| 0 <= j < all.len() ==> (#[trigger] all[j]).col <= all[j].end);
    if paint.renders {
        text_keeps_place_and_style(all, m);
        let k = choose|k: int|
            0 <= k < text_runs(all).len() && draws(#[trigger] text_runs(all)[k], all[m]);
        assert(text_views(frame.text@)[k] == frame.text@[k]@);
        assert(draws(frame.text@[k]@, paint));
    }
    if let Some(rgb) = paint.bg {
        backgrounds_cover_cells(all, paint.row, x, rgb);
    }
    if paint.selected {
        highlight_covers_selection(all, palette.selection, paint.row, x);
    }
    if paint.underline {
        assert(decorated(all[m], RunKind::Underline));
        decorations_follow_cells(all, paint.row, x, paint.fg, RunKind::Underline);
    }
    if paint.strikeout {
        assert(decorated(all[m], RunKind::Strikeout));
        decorations_follow_cells(all, paint.row, x, paint.fg, RunKind::Strikeout);
    }
}

/// The cursor shows exactly when its shape is not the hidden one, the terminal
/// shows it and its line is in the window; an unfocused window outlines it,
/// whatever its shape, and a focused one draws beams and underlines as such
/// and everything else as a block. Its color is the cursor's.
pub proof fn the_cursor_shows_where_it_is(
    frame: Frame,
    cells: Seq<Cell>,
    view: Viewport,
    cursor: Cursor,
    shown: bool,
    focused: bool,
    slots: Seq<Option<(u8, u8, u8)>>,
    palette: Palette,
)
    requires
        is_frame(frame, cells, view, cursor, shown, focused, slots, palette),
    ensures
        frame.cursor is Some <==> cursor.shape != CursorShape::Hidden && shown && 0 <= cursor.line
            + view.display_offset < view.rows,
        frame.cursor matches Some((row, mark)) ==> {
            &&& row == cursor.line + view.display_offset
            &&& mark == CursorMark::Outline <==> !focused
            &&& focused ==> (mark == CursorMark::Beam <==> cursor.shape == CursorShape::Beam)
            &&& focused ==> (mark == CursorMark::Underline <==> cursor.shape
                == CursorShape::Underline)
        },
        slots[258] matches Some((r, g, b)) ==> frame.cursor_rgb == (Rgb { r, g, b }),
        slots[258] is None ==> frame.cursor_rgb == palette.cursor,
{
}

/// The cell of the grid stands on the column of the window's row, and is no
/// empty half of a wide character.
pub open spec fn stands_on(cell: Cell, view: Viewport, row: usize, x: int) -> bool {
    &&& cell.line + view.display_offset == row
    &&& cell.flags & 0x40 != 0x40
    &&& cell.flags & 0x400 != 0x400
    &&& cell.column <= x < cell.column + if cell.flags & 0x20 == 0x20 {
        2int
    } else {
        1
    }
}

proof fn lemma_paint_comes_from_grid(
    cells: Seq<Cell>,
    view: Viewport,
    slots: Seq<Option<(u8, u8, u8)>>,
    palette: Palette,
    m: int,
) -> (i: int)
    requires
        paintable(cells, view),
        0 <= m < painted(
            cells.take(cells_before_bottom(cells, view)),
            view,
            slots,
            palette,
        ).len(),
    ensures
        0 <= i < cells.len(),
        is_painted(cells[i], view),
        cells[i].line + view.display_offset < view.rows,
        cells[i].column + 2 <= usize::MAX,
        paint_of(cells[i], view, slots, palette) == painted(
            cells.take(cells_before_bottom(cells, view)),
            view,
            slots,
            palette,
        )[m],
{
    the_window_ends_at_its_bottom(cells, view);
    let part = cells.take(cells_before_bottom(cells, view));
    let all = painted(part, view, slots, palette);
    lemma_painted_holds(part, view, slots, palette);
    assert(all[m] == all[m]);
    let i = choose|i: int|
        0 <= i < part.len() && is_painted(#[trigger] part[i], view) && paint_of(
            part[i],
            view,
            slots,
            palette,
        ) == all[m];
    assert(cells[i] == part[i]);
    assert(cells[i].column + 2 <= usize::MAX);
    i
}

/// The frame shows nothing of its own: every painted background, highlight and
/// decoration lies on a cell of the grid in the window that has it.
pub proof fn the_frame_paints_nothing_else(
    frame: Frame,
    cells: Seq<Cell>,
    view: Viewport,
    cursor: Cursor,
    shown: bool,
    focused: bool,
    slots: Seq<Option<(u8, u8, u8)>>,
    palette: Palette,
    row: usize,
    x: usize,
    rgb: Rgb,
)
    requires
        is_frame(frame, cells, view, cursor, shown, focused, slots, palette),
        paintable(cells, view),
    ensures
        paints(frame.backgrounds@, row, x, rgb, RunKind::Background) ==> exists|i: int|
            0 <= i < cells.len() && row < view.rows && stands_on(
                #[trigger] cells[i],
                view,
                row,
                x as int,
            ) && ({
                let back = if cells[i].flags & 0x1 == 0x1 {
                    cells[i].fg
                } else {
                    cells[i].bg
                };
                back != Color::Named(NamedColor::Background) && rgb == crate::colors::resolved(
                    back,
                    slots,
                    false,
                    palette,
                )
            }),
        paints(frame.selection@, row, x, palette.selection, RunKind::Selection) ==> exists|i: int|
            0 <= i < cells.len() && row < view.rows && stands_on(
                #[trigger] cells[i],
                view,
                row,
                x as int,
            ) && view.selection is Some && view.selection->0.holds(cells[i].line, cells[i].column),
        paints(frame.decorations@, row, x, rgb, RunKind::Underline) ==> exists|i: int|
            0 <= i < cells.len() && row < view.rows && stands_on(
                #[trigger] cells[i],
                view,
                row,
                x as int,
            ) && cells[i].flags & 0x7808 != 0,
        paints(frame.decorations@, row, x, rgb, RunKind::Strikeout) ==> exists|i: int|
            0 <= i < cells.len() && row < view.rows && stands_on(
                #[trigger] cells[i],
                view,
                row,
                x as int,
            ) && cells[i].flags & 0x200 == 0x200,
{
    the_window_ends_at_its_bottom(cells, view);
    let part = cells.take(cells_before_bottom(cells, view));
    let all = painted(part, view, slots, palette);
    assert(paintable(part, view));
    painted_cells_are_sound(part, view, slots, palette);
    assert(forall|j: int| 0 <= j < all.len() ==> (#[trigger] all[j]).col <= all[j].end);
    backgrounds_cover_cells(all, row, x, rgb);
    highlight_covers_selection(all, palette.selection, row, x);
    decorations_follow_cells(all, row, x, rgb, RunKind::Underline);
    decorations_follow_cells(all, row, x, rgb, RunKind::Strikeout);
    if paints(frame.backgrounds@, row, x, rgb, RunKind::Background) {
        let m = choose|m: int|
            0 <= m < all.len() && lies_on(#[trigger] all[m], row, x) && all[m].bg == Some(rgb);
        let i = lemma_paint_comes_from_grid(cells, view, slots, palette, m);
        assert(stands_on(cells[i], view, row, x as int));
    }
    if paints(frame.selection@, row, x, palette.selection, RunKind::Selection) {
        let m = choose|m: int|
            0 <= m < all.len() && lies_on(#[trigger] all[m], row, x) && all[m].selected;
        let i = lemma_paint_comes_from_grid(cells, view, slots, palette, m);
        assert(stands_on(cells[i], view, row, x as int));
    }
    if paints(frame.decorations@, row, x, rgb, RunKind::Underline) {
        let m = choose|m: int|
            0 <= m < all.len() && lies_on(#[trigger] all[m], row, x) && all[m].fg == rgb
                && decorated(all[m], RunKind::Underline);
        let i = lemma_paint_comes_from_grid(cells, view, slots, palette, m);
        assert(stands_on(cells[i], view, row, x as int));
    }
    if paints(frame.decorations@, row, x, rgb, RunKind::Strikeout) {
        let m = choose|m: int|
            0 <= m < all.len() && lies_on(#[trigger] all[m], row, x) && all[m].fg == rgb
                && decorated(all[m], RunKind::Strikeout);
        let i = lemma_paint_comes_from_grid(cells, view, slots, palette, m);
        assert(stands_on(cells[i], view, row, x as int));
    }
}

/// The frame writes nothing of its own: every character of its text is that of
/// a cell of the grid in the window, on its column, no space and not hidden.
pub proof fn the_frame_writes_nothing_else(
    frame: Frame,
    cells: Seq<Cell>,
    view: Viewport,
    cursor: Cursor,
    shown: bool,
    focused: bool,
    slots: Seq<Option<(u8, u8, u8)>>,
    palette: Palette,
    k: int,
    j: int,
)
    requires
        is_frame(frame, cells, view, cursor, shown, focused, slots, palette),
        paintable(cells, view),
        0 <= k < frame.text@.len(),
        0 <= j < frame.text@[k].text@.len(),
    ensures
        exists|i: int|
            0 <= i < cells.len() && frame.text@[k].row < view.rows && stands_on(
                #[trigger] cells[i],
                view,
                frame.text@[k].row,
                cells[i].column as int,
            ) && cells[i].column == frame.text@[k].col + j && cells[i].c == frame.text@[k].text@[j]
                && cells[i].c != ' ' && cells[i].flags & 0x100 != 0x100 && frame.text@[k].bold == (
            cells[i].flags & 0x2 == 0x2) && frame.text@[k].italic == (cells[i].flags & 0x4 == 0x4),
{
    the_window_ends_at_its_bottom(cells, view);
    let part = cells.take(cells_before_bottom(cells, view));
    let all = painted(part, view, slots, palette);
    assert(paintable(part, view));
    painted_cells_are_sound(part, view, slots, palette);
    assert(text_views(frame.text@)[k] == frame.text@[k]@);
    drawn_characters_are_cells(all, k, j);
    let m = choose|m: int|
        0 <= m < all.len() && (#[trigger] all[m]).renders && draws(text_runs(all)[k], all[m])
            && all[m].col == text_runs(all)[k].col + j;
    let i = lemma_paint_comes_from_grid(cells, view, slots, palette, m);
    assert(stands_on(cells[i], view, frame.text@[k].row, cells[i].column as int));
}

/// The columns that runs paint, all told.
pub open spec fn run_columns(runs: Seq<Run>) -> int
    decreases runs.len(),
{
    if runs.len() == 0 {
        0
    } else {
        run_columns(runs.drop_last()) + (runs.last().end - runs.last().start)
    }
}

/// The columns of the cells that a rule picks, all told.
pub open spec fn cell_columns(cells: Seq<PaintCell>, picked: spec_fn(PaintCell) -> int) -> int
    decreases cells.len(),
{
    if cells.len() == 0 {
        0
    } else {
        cell_columns(cells.drop_last(), picked) + picked(cells.last()) * (cells.last().end
            - cells.last().col)
    }
}

proof fn lemma_with_run_columns(runs: Seq<Run>, open: bool, run: Run)
    ensures
        run_columns(with_run(runs, open, run)) == run_columns(runs) + (run.end - run.start),
{
    let after = with_run(runs, open, run);
    if open && runs.len() > 0 && continues(runs.last(), run) {
        assert(after.drop_last() =~= runs.drop_last());
    } else {
        assert(after.drop_last() =~= runs);
    }
}

/// Nothing is painted twice: the runs have as many columns as the cells that
/// they are for.
pub proof fn nothing_is_painted_twice(cells: Seq<PaintCell>, highlight: Rgb)
    ensures
        run_columns(background_runs(cells)) == cell_columns(
            cells,
            |cell: PaintCell|
                if cell.bg is Some {
                    1int
                } else {
                    0
                },
        ),
        run_columns(selection_runs(cells, highlight)) == cell_columns(
            cells,
            |cell: PaintCell|
                if cell.selected {
                    1int
                } else {
                    0
                },
        ),
        run_columns(decoration_runs(cells)) == cell_columns(
            cells,
            |cell: PaintCell|
                (if cell.underline {
                    1int
                } else {
                    0
                }) + if cell.strikeout {
                    1int
                } else {
                    0
                },
        ),
    decreases cells.len(),
{
    if cells.len() > 0 {
        let before = cells.drop_last();
        let cell = cells.last();
        nothing_is_painted_twice(before, highlight);
        if let Some(rgb) = cell.bg {
            lemma_with_run_columns(
                background_runs(before),
                cells.len() > 1 && cells[cells.len() - 2].bg is Some,
                cell_run(cell, rgb, RunKind::Background),
            );
        }
        lemma_with_run_columns(
            selection_runs(before, highlight),
            true,
            cell_run(cell, highlight, RunKind::Selection),
        );
        let runs = decoration_runs(before);
        let underline = cell_run(cell, cell.fg, RunKind::Underline);
        let strikeout = cell_run(cell, cell.fg, RunKind::Strikeout);
        lemma_with_run_columns(runs, true, underline);
        lemma_with_run_columns(runs, true, strikeout);
        lemma_with_run_columns(with_run(runs, true, underline), true, strikeout);
        let w = cell.end - cell.col;
        assert(0 * w == 0 && 1 * w == w && 2 * w == w + w);
    }
}

/// The run lies over both cells from end to end.
pub open spec fn spans(run: Run, a: PaintCell, b: PaintCell) -> bool {
    run.row == a.row && run.start <= a.col && b.end <= run.end
}

proof fn lemma_with_run_keeps_span(
    runs: Seq<Run>,
    open: bool,
    run: Run,
    k: int,
    a: PaintCell,
    b: PaintCell,
)
    requires
        0 <= k < runs.len(),
        spans(runs[k], a, b),
        run.start <= run.end,
    ensures
        k < with_run(runs, open, run).len(),
        spans(with_run(runs, open, run)[k], a, b),
        with_run(runs, open, run)[k].kind == runs[k].kind,
{
}

/// Backgrounds are batched: two cells after one another that touch on one row
/// and have one color lie under one run.
pub proof fn like_neighbors_share_a_background(cells: Seq<PaintCell>, i: int)
    requires
        forall|i: int| 0 <= i < cells.len() ==> (#[trigger] cells[i]).col < cells[i].end,
        0 <= i < cells.len(),
        cells[i].bg is Some,
    ensures
        i + 1 < cells.len() && cells[i + 1].bg == cells[i].bg && cells[i + 1].row == cells[i].row
            && cells[i + 1].col == cells[i].end ==> exists|k: int|
            0 <= k < background_runs(cells).len() && spans(
                #[trigger] background_runs(cells)[k],
                cells[i],
                cells[i + 1],
            ),
        i == cells.len() - 1 ==> ({
            let runs = background_runs(cells);
            &&& runs.len() > 0
            &&& runs.last().row == cells[i].row
            &&& runs.last().start <= cells[i].col
            &&& runs.last().end == cells[i].end
            &&& runs.last().rgb == cells[i].bg->0
            &&& runs.last().kind == RunKind::Background
        }),
    decreases cells.len(),
{
    let before = cells.drop_last();
    let runs = background_runs(cells);
    let old_runs = background_runs(before);
    let last = cells[cells.len() - 1];
    assert(forall|j: int| 0 <= j < before.len() ==> before[j] == cells[j]);
    assert(last.col < last.end);
    if i < cells.len() - 1 {
        assert(before[i] == cells[i]);
        like_neighbors_share_a_background(before, i);
        let open = cells.len() > 1 && cells[cells.len() - 2].bg is Some;
        if cells[i + 1].bg == cells[i].bg && cells[i + 1].row == cells[i].row && cells[i + 1].col
            == cells[i].end {
            if i + 1 < before.len() {
                assert(before[i + 1] == cells[i + 1]);
                let k = choose|k: int|
                    0 <= k < old_runs.len() && spans(
                        #[trigger] old_runs[k],
                        before[i],
                        before[i + 1],
                    );
                if let Some(rgb) = last.bg {
                    lemma_with_run_keeps_span(
                        old_runs,
                        open,
                        cell_run(last, rgb, RunKind::Background),
                        k,
                        cells[i],
                        cells[i + 1],
                    );
                }
                assert(spans(runs[k], cells[i], cells[i + 1]));
            } else {
                assert(continues(
                    old_runs.last(),
                    cell_run(last, last.bg->0, RunKind::Background),
                ));
                assert(spans(runs[runs.len() - 1], cells[i], cells[i + 1]));
            }
        }
    } else if cells.len() > 1 && before.last().bg is Some {
        like_neighbors_share_a_background(before, before.len() - 1);
        assert(before.last().col < before.last().end);
    }
}

/// Highlights are batched: two selected cells after one another that touch on
/// one row lie under one run.
pub proof fn selected_neighbors_share_a_highlight(
    cells: Seq<PaintCell>,
    highlight: Rgb,
    i: int,
)
    requires
        forall|i: int| 0 <= i < cells.len() ==> (#[trigger] cells[i]).col < cells[i].end,
        0 <= i < cells.len(),
        cells[i].selected,
    ensures
        i + 1 < cells.len() && cells[i + 1].selected && cells[i + 1].row == cells[i].row && cells[i
            + 1].col == cells[i].end ==> exists|k: int|
            0 <= k < selection_runs(cells, highlight).len() && spans(
                #[trigger] selection_runs(cells, highlight)[k],
                cells[i],
                cells[i + 1],
            ),
        i == cells.len() - 1 ==> ({
            let runs = selection_runs(cells, highlight);
            &&& runs.len() > 0
            &&& runs.last().row == cells[i].row
            &&& runs.last().start <= cells[i].col
            &&& runs.last().end == cells[i].end
            &&& runs.last().rgb == highlight
            &&& runs.last().kind == RunKind::Selection
        }),
    decreases cells.len(),
{
    let before = cells.drop_last();
    let runs = selection_runs(cells, highlight);
    let old_runs = selection_runs(before, highlight);
    let last = cells[cells.len() - 1];
    let run = cell_run(last, highlight, RunKind::Selection);
    assert(forall|j: int| 0 <= j < before.len() ==> before[j] == cells[j]);
    assert(last.col < last.end);
    lemma_selection_runs(cells, highlight, 0, 0);
    lemma_selection_runs(before, highlight, 0, 0);
    if old_runs.len() > 0 {
        assert(old_runs[old_runs.len() - 1].start <= old_runs[old_runs.len() - 1].end);
    }
    if i < cells.len() - 1 {
        assert(before[i] == cells[i]);
        selected_neighbors_share_a_highlight(before, highlight, i);
        if cells[i + 1].selected && cells[i + 1].row == cells[i].row && cells[i + 1].col
            == cells[i].end {
            if i + 1 < before.len() {
                assert(before[i + 1] == cells[i + 1]);
                let k = choose|k: int|
                    0 <= k < old_runs.len() && spans(
                        #[trigger] old_runs[k],
                        before[i],
                        before[i + 1],
                    );
                if last.selected {
                    lemma_with_run_keeps_span(old_runs, true, run, k, cells[i], cells[i + 1]);
                }
                assert(spans(runs[k], cells[i], cells[i + 1]));
            } else {
                assert(continues(old_runs.last(), run));
                assert(spans(runs[runs.len() - 1], cells[i], cells[i + 1]));
            }
        }
    }
}

/// Decorations are batched: two cells after one another that touch on one row
/// in one color, with the same one decoration, lie along one run of it.
pub proof fn like_neighbors_share_a_decoration(cells: Seq<PaintCell>, i: int)
    requires
        forall|i: int| 0 <= i < cells.len() ==> (#[trigger] cells[i]).col < cells[i].end,
        0 <= i < cells.len(),
        cells[i].underline != cells[i].strikeout,
    ensures
        i + 1 < cells.len() && cells[i + 1].underline == cells[i].underline && cells[i + 1].strikeout
            == cells[i].strikeout && cells[i + 1].fg == cells[i].fg && cells[i + 1].row
            == cells[i].row && cells[i + 1].col == cells[i].end ==> exists|k: int|
            0 <= k < decoration_runs(cells).len() && spans(
                #[trigger] decoration_runs(cells)[k],
                cells[i],
                cells[i + 1],
            ) && decoration_runs(cells)[k].kind == if cells[i].underline {
                RunKind::Underline
            } else {
                RunKind::Strikeout
            },
        i == cells.len() - 1 ==> ({
            let runs = decoration_runs(cells);
            &&& runs.len() > 0
            &&& runs.last().row == cells[i].row
            &&& runs.last().start <= cells[i].col
            &&& runs.last().end == cells[i].end
            &&& runs.last().rgb == cells[i].fg
            &&& runs.last().kind == if cells[i].underline {
                RunKind::Underline
            } else {
                RunKind::Strikeout
            }
        }),
    decreases cells.len(),
{
    let before = cells.drop_last();
    let runs = decoration_runs(cells);
    let old_runs = decoration_runs(before);
    let last = cells[cells.len() - 1];
    assert(forall|j: int| 0 <= j < before.len() ==> before[j] == cells[j]);
    assert(last.col < last.end);
    let kind = if cells[i].underline {
        RunKind::Underline
    } else {
        RunKind::Strikeout
    };
    lemma_decoration_runs(before, 0, 0, last.fg, kind);
    if old_runs.len() > 0 {
        assert(old_runs[old_runs.len() - 1].start <= old_runs[old_runs.len() - 1].end);
    }
    let underline = cell_run(last, last.fg, RunKind::Underline);
    let strikeout = cell_run(last, last.fg, RunKind::Strikeout);
    if i < cells.len() - 1 {
        assert(before[i] == cells[i]);
        like_neighbors_share_a_decoration(before, i);
        if cells[i + 1].underline == cells[i].underline && cells[i + 1].strikeout
            == cells[i].strikeout && cells[i + 1].fg == cells[i].fg && cells[i + 1].row
            == cells[i].row && cells[i + 1].col == cells[i].end {
            if i + 1 < before.len() {
                assert(before[i + 1] == cells[i + 1]);
                let k = choose|k: int|
                    0 <= k < old_runs.len() && spans(
                        #[trigger] old_runs[k],
                        before[i],
                        before[i + 1],
                    ) && old_runs[k].kind == kind;
                lemma_with_run_keeps_span(old_runs, true, underline, k, cells[i], cells[i + 1]);
                let underlined = if last.underline {
                    with_run(old_runs, true, underline)
                } else {
                    old_runs
                };
                lemma_with_run_keeps_span(underlined, true, strikeout, k, cells[i], cells[i + 1]);
                assert(spans(runs[k], cells[i], cells[i + 1]));
            } else {
                assert(spans(runs[runs.len() - 1], cells[i], cells[i + 1]));
            }
        }
    }
}

} // verus!
