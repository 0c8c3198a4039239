use alacritty_terminal::event::VoidListener;
use alacritty_terminal::grid::Dimensions;
use alacritty_terminal::index::{Column, Line, Point, Side};
use alacritty_terminal::selection::{
    Selection, SelectionRange as GridRange, SelectionType as GridSelection,
};
use alacritty_terminal::term::cell::Flags;
use alacritty_terminal::term::color::Colors;
use alacritty_terminal::term::{Config as TermConfig, Term, TermMode as Modes};
use alacritty_terminal::vte::ansi::{Color as AnsiColor, NamedColor as AnsiName, Processor};
use cce_terminal::colors::{scale, Color, NamedColor, Palette, Rgb};
use cce_terminal::mode::TermMode;
use cce_terminal::render::{
    display_list, Cell, Cursor, CursorMark, CursorShape, Frame, Run, RunKind, SelectionRange,
    TextRun, Viewport,
};

struct TermDims {
    cols: u16,
    rows: u16,
}

impl Dimensions for TermDims {
    fn total_lines(&self) -> usize {
        self.rows as usize
    }

    fn screen_lines(&self) -> usize {
        self.rows as usize
    }

    fn columns(&self) -> usize {
        self.cols as usize
    }
}

fn term_with(bytes: &[u8]) -> Term<VoidListener> {
    let mut term =
        Term::new(TermConfig::default(), &TermDims { cols: 20, rows: 5 }, VoidListener);
    let mut parser: Processor = Processor::new();
    parser.advance(&mut term, bytes);
    term
}

fn color(color: AnsiColor) -> Color {
    match color {
        AnsiColor::Named(AnsiName::Foreground) => Color::Named(NamedColor::Foreground),
        AnsiColor::Named(AnsiName::Background) => Color::Named(NamedColor::Background),
        AnsiColor::Named(AnsiName::Red) => Color::Named(NamedColor::Red),
        AnsiColor::Named(AnsiName::Blue) => Color::Named(NamedColor::Blue),
        AnsiColor::Named(other) => panic!("{other:?} does not occur"),
        AnsiColor::Spec(rgb) => Color::Spec(Rgb { r: rgb.r, g: rgb.g, b: rgb.b }),
        AnsiColor::Indexed(i) => Color::Indexed(i),
    }
}

fn frame_of(term: &Term<VoidListener>) -> Frame {
    let content = term.renderable_content();
    let selection = content.selection.map(|range| SelectionRange {
        start_line: range.start.line.0,
        start_column: range.start.column.0,
        end_line: range.end.line.0,
        end_column: range.end.column.0,
        is_block: range.is_block,
    });
    let view = Viewport { rows: 5, display_offset: content.display_offset, selection };
    let cursor = Cursor {
        line: content.cursor.point.line.0,
        column: content.cursor.point.column.0,
        shape: CursorShape::Block,
    };
    let shown = TermMode::from_bits(content.mode.bits()).show_cursor;
    let mut cells = Vec::new();
    for cell in content.display_iter {
        cells.push(Cell {
            line: cell.point.line.0,
            column: cell.point.column.0,
            c: cell.c,
            fg: color(cell.fg),
            bg: color(cell.bg),
            flags: cell.flags.bits(),
        });
    }
    display_list(&cells, &view, &cursor, shown, true, content.colors, &Palette::default())
}

fn texts(frame: &Frame) -> Vec<(usize, usize, String)> {
    frame.text.iter().map(|run| (run.row, run.col, run.text.iter().collect())).collect()
}

fn spans(runs: &[Run]) -> Vec<(usize, usize, usize)> {
    runs.iter().map(|run| (run.row, run.start, run.end)).collect()
}

fn cell(line: i32, column: usize, c: char, flags: Flags) -> Cell {
    Cell {
        line,
        column,
        c,
        fg: Color::Named(NamedColor::Foreground),
        bg: Color::Named(NamedColor::Background),
        flags: flags.bits(),
    }
}

const AT_HOME: Cursor = Cursor { line: 0, column: 0, shape: CursorShape::Block };

fn paint(cells: &[Cell], view: &Viewport) -> Frame {
    display_list(cells, view, &AT_HOME, true, true, &Colors::default(), &Palette::default())
}

fn live(rows: usize) -> Viewport {
    Viewport { rows, display_offset: 0, selection: None }
}

#[test]
fn sgr_colors_land_in_grid() {
    let term = term_with(b"\x1b[31mred\x1b[0m ok");
    let grid = term.grid();
    assert_eq!(grid[Line(0)][Column(0)].c, 'r');
    assert_eq!(grid[Line(0)][Column(0)].fg, AnsiColor::Named(AnsiName::Red));
    assert_eq!(grid[Line(0)][Column(4)].c, 'o');
    assert_eq!(grid[Line(0)][Column(4)].fg, AnsiColor::Named(AnsiName::Foreground));
    // And from the grid into the frame.
    let frame = frame_of(&term);
    assert_eq!(texts(&frame), vec![(0, 0, "red".to_string()), (0, 4, "ok".to_string())]);
    assert_eq!(frame.text[0].fg, Palette::default().ansi[1]);
    assert_eq!(frame.text[1].fg, Palette::default().foreground);
}

#[test]
fn cursor_addressing_works() {
    // CUP to row 3 col 5, write X.
    let term = term_with(b"\x1b[3;5HX");
    assert_eq!(term.grid()[Line(2)][Column(4)].c, 'X');
    assert_eq!(term.grid().cursor.point.line, Line(2));
    let frame = frame_of(&term);
    assert_eq!(texts(&frame), vec![(2, 4, "X".to_string())]);
    assert_eq!(frame.cursor, Some((2, CursorMark::Block)));
}

#[test]
fn selection_extracts_text() {
    let mut term = term_with(b"hello world\r\nsecond line");
    // Word-select "world": semantic selection from a point inside it.
    term.selection = Some(Selection::new(
        GridSelection::Semantic,
        Point::new(Line(0), Column(8)),
        Side::Left,
    ));
    assert_eq!(term.selection_to_string().as_deref(), Some("world"));
    assert_eq!(spans(&frame_of(&term).selection), vec![(0, 6, 11)]);
    // Line-select the second row.
    term.selection =
        Some(Selection::new(GridSelection::Lines, Point::new(Line(1), Column(3)), Side::Left));
    // Line selections carry their trailing newline.
    assert_eq!(term.selection_to_string().as_deref(), Some("second line\n"));
    assert_eq!(spans(&frame_of(&term).selection), vec![(1, 0, 20)]);
    // Simple drag across the first word.
    let mut sel =
        Selection::new(GridSelection::Simple, Point::new(Line(0), Column(0)), Side::Left);
    sel.update(Point::new(Line(0), Column(4)), Side::Right);
    term.selection = Some(sel);
    assert_eq!(term.selection_to_string().as_deref(), Some("hello"));
    assert_eq!(spans(&frame_of(&term).selection), vec![(0, 0, 5)]);
}

#[test]
fn mouse_modes_land_from_escapes() {
    let term = term_with(b"\x1b[?1002h\x1b[?1006h");
    assert!(term.mode().contains(Modes::MOUSE_DRAG));
    assert!(term.mode().contains(Modes::SGR_MOUSE));
    assert!(term.mode().intersects(Modes::MOUSE_MODE));
    let mode = TermMode::from_bits(term.mode().bits());
    assert!(mode.mouse_drag);
    assert!(mode.sgr_mouse);
    assert!(mode.mouse_mode());
}

#[test]
fn a_hidden_cursor_stays_hidden() {
    assert_eq!(frame_of(&term_with(b"x\x1b[?25l")).cursor, None);
    assert_eq!(frame_of(&term_with(b"x")).cursor, Some((0, CursorMark::Block)));
}

#[test]
fn backgrounds_batch_by_color() {
    let frame = frame_of(&term_with(b"\x1b[41mab\x1b[44mc\x1b[0md\x1b[41me\r\n\x1b[41mf"));
    let red = Palette::default().ansi[1];
    let blue = Palette::default().ansi[4];
    assert_eq!(spans(&frame.backgrounds), vec![(0, 0, 2), (0, 2, 3), (0, 4, 5), (1, 0, 1)]);
    assert_eq!(
        frame.backgrounds.iter().map(|run| run.rgb).collect::<Vec<Rgb>>(),
        vec![red, blue, red, red]
    );
    assert!(frame.backgrounds.iter().all(|run| run.kind == RunKind::Background));
}

#[test]
fn inverse_cells_swap_their_colors() {
    let frame = frame_of(&term_with(b"\x1b[7ma"));
    assert_eq!(frame.backgrounds[0].rgb, Palette::default().foreground);
    assert_eq!(frame.text[0].fg, Palette::default().background);
}

#[test]
fn dim_text_and_styles_break_runs() {
    let frame = frame_of(&term_with(b"a\x1b[2mb\x1b[0;1mc\x1b[3md\x1b[0me"));
    assert_eq!(
        texts(&frame),
        vec![
            (0, 0, "a".to_string()),
            (0, 1, "b".to_string()),
            (0, 2, "c".to_string()),
            (0, 3, "d".to_string()),
            (0, 4, "e".to_string())
        ]
    );
    assert_eq!(frame.text[1].fg, scale(Palette::default().foreground));
    assert!(frame.text[2].bold && !frame.text[2].italic);
    assert!(frame.text[3].bold && frame.text[3].italic);
}

#[test]
fn hidden_cells_and_spaces_draw_no_text() {
    let frame = frame_of(&term_with(b"a b\x1b[8mc\x1b[0md"));
    assert_eq!(
        texts(&frame),
        vec![(0, 0, "a".to_string()), (0, 2, "b".to_string()), (0, 4, "d".to_string())]
    );
}

#[test]
fn wide_characters_stand_alone() {
    let frame = frame_of(&term_with("a\u{4f60}b".as_bytes()));
    assert_eq!(
        texts(&frame),
        vec![(0, 0, "a".to_string()), (0, 1, "\u{4f60}".to_string()), (0, 3, "b".to_string())]
    );
    assert_eq!(frame.text[1].next_col, 3);
    // Background runs go on over both halves.
    let frame = frame_of(&term_with("\x1b[41ma\u{4f60}b".as_bytes()));
    assert_eq!(spans(&frame.backgrounds), vec![(0, 0, 4)]);
}

#[test]
fn underlines_of_all_kinds_and_strikeouts() {
    let underline = RunKind::Underline;
    let strikeout = RunKind::Strikeout;
    for flag in [
        Flags::UNDERLINE,
        Flags::DOUBLE_UNDERLINE,
        Flags::UNDERCURL,
        Flags::DOTTED_UNDERLINE,
        Flags::DASHED_UNDERLINE,
    ] {
        let frame = paint(&[cell(0, 0, 'a', flag), cell(0, 1, ' ', flag)], &live(1));
        assert_eq!(spans(&frame.decorations), vec![(0, 0, 2)]);
        assert_eq!(frame.decorations[0].kind, underline);
    }
    let frame = paint(&[cell(0, 0, 'a', Flags::STRIKEOUT)], &live(1));
    assert_eq!(frame.decorations[0].kind, strikeout);
    // Two kinds at once never join their neighbors.
    let both = Flags::UNDERLINE | Flags::STRIKEOUT;
    let frame = paint(&[cell(0, 0, 'a', both), cell(0, 1, 'b', both)], &live(1));
    let kinds: Vec<RunKind> = frame.decorations.iter().map(|run| run.kind).collect();
    assert_eq!(kinds, vec![underline, strikeout, underline, strikeout]);
    assert_eq!(spans(&frame.decorations), vec![(0, 0, 1), (0, 0, 1), (0, 1, 2), (0, 1, 2)]);
    assert!(paint(&[cell(0, 0, 'a', Flags::BOLD)], &live(1)).decorations.is_empty());
}

#[test]
fn every_cell_flag_is_told_apart() {
    let none = Flags::empty();
    let run = |flags: Flags| -> Option<TextRun> {
        paint(&[cell(0, 0, 'a', flags)], &live(1)).text.first().cloned()
    };
    let plain = run(none).unwrap();
    assert!(!plain.bold && !plain.italic && plain.next_col == 1);
    assert!(run(Flags::BOLD).unwrap().bold);
    assert!(run(Flags::ITALIC).unwrap().italic);
    assert_eq!(run(Flags::WIDE_CHAR).unwrap().next_col, 2);
    assert_eq!(run(Flags::DIM).unwrap().fg, scale(plain.fg));
    assert_eq!(run(Flags::INVERSE).unwrap().fg, Palette::default().background);
    assert!(run(Flags::HIDDEN).is_none());
    assert!(run(Flags::WIDE_CHAR_SPACER).is_none());
    assert!(run(Flags::LEADING_WIDE_CHAR_SPACER).is_none());
    assert!(run(Flags::WRAPLINE).is_some());
}

#[test]
fn the_view_scrolls_and_is_cut_off() {
    let cells = [
        cell(-3, 0, 'a', Flags::empty()),
        cell(-2, 0, 'b', Flags::empty()),
        cell(-1, 0, 'c', Flags::empty()),
        cell(0, 0, 'd', Flags::empty()),
    ];
    let view = Viewport { rows: 2, display_offset: 2, selection: None };
    let frame = paint(&cells, &view);
    assert_eq!(texts(&frame), vec![(0, 0, "b".to_string()), (1, 0, "c".to_string())]);
    // The cursor on line 0 has gone below the window.
    assert_eq!(frame.cursor, None);
}

#[test]
fn selections_hold_what_the_terminal_says() {
    let ranges = [
        (0, 3, 0, 5, false),
        (0, 3, 2, 1, false),
        (-1, 2, 1, 4, true),
        (1, 0, 1, 0, false),
        (2, 5, 1, 0, false),
    ];
    for (start_line, start_column, end_line, end_column, is_block) in ranges {
        let grid_range = GridRange {
            start: Point::new(Line(start_line), Column(start_column)),
            end: Point::new(Line(end_line), Column(end_column)),
            is_block,
        };
        let view = Viewport {
            rows: 5,
            display_offset: 1,
            selection: Some(SelectionRange {
                start_line,
                start_column,
                end_line,
                end_column,
                is_block,
            }),
        };
        for line in -1..3 {
            for column in 0..7 {
                let frame = paint(&[cell(line, column, 'a', Flags::empty())], &view);
                assert_eq!(
                    frame.selection.len() == 1,
                    grid_range.contains(Point::new(Line(line), Column(column)))
                );
            }
        }
    }
}

#[test]
fn the_cursor_has_its_marks() {
    let mark = |shape, shown, focused| {
        let cursor = Cursor { line: 0, column: 3, shape };
        display_list(
            &[],
            &live(1),
            &cursor,
            shown,
            focused,
            &Colors::default(),
            &Palette::default(),
        )
        .cursor
    };
    assert_eq!(mark(CursorShape::Block, true, true), Some((0, CursorMark::Block)));
    assert_eq!(mark(CursorShape::HollowBlock, true, true), Some((0, CursorMark::Block)));
    assert_eq!(mark(CursorShape::Beam, true, true), Some((0, CursorMark::Beam)));
    assert_eq!(mark(CursorShape::Underline, true, true), Some((0, CursorMark::Underline)));
    assert_eq!(mark(CursorShape::Beam, true, false), Some((0, CursorMark::Outline)));
    assert_eq!(mark(CursorShape::Hidden, true, false), None);
    assert_eq!(mark(CursorShape::Block, false, true), None);
}

#[test]
fn the_cursor_color_can_be_overridden() {
    let mut overrides = Colors::default();
    overrides[NamedColor::Cursor.index()] =
        Some(alacritty_terminal::vte::ansi::Rgb { r: 4, g: 5, b: 6 });
    let frame =
        display_list(&[], &live(1), &AT_HOME, true, true, &overrides, &Palette::default());
    assert_eq!(frame.cursor_rgb, Rgb { r: 4, g: 5, b: 6 });
    assert_eq!(paint(&[], &live(1)).cursor_rgb, Palette::default().cursor);
}
