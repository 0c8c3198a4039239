//! Mouse reports: how a button, wheel or motion event reaches the application.

use vstd::prelude::*;

use crate::digits::push_decimal;
use crate::mode::TermMode;

verus! {

/// The largest coordinate that the UTF-8 encoding carries.
pub const UTF8_COORD_MAX: usize = 2015;

/// An SGR report: every number in decimal, 1-based cells, `M` on press and `m`
/// on release.
pub open spec fn sgr_report(code: u8, pressed: bool, col: int, row: int) -> Seq<u8> {
    seq![0x1bu8, '[' as u8, '<' as u8] + crate::digits::decimal(code as nat) + seq![';' as u8]
        + crate::digits::decimal((col + 1) as nat) + seq![';' as u8] + crate::digits::decimal(
        (row + 1) as nat,
    ) + seq![
        if pressed {
            'M' as u8
        } else {
            'm' as u8
        },
    ]
}

/// The button code that a report without SGR carries: a release does not say
/// which button went up.
pub open spec fn plain_code(code: u8, pressed: bool) -> int {
    if pressed {
        code as int
    } else {
        (code / 4) * 4 + 3
    }
}

pub open spec fn at_most(n: int, limit: int) -> int {
    if n < limit {
        n
    } else {
        limit
    }
}

/// A coordinate of a report without SGR: one byte, or one UTF-8 scalar, each
/// held at the largest that fits.
pub open spec fn plain_coord(utf8: bool, coord: int) -> Seq<u8> {
    if utf8 {
        vstd::utf8::encode_scalar(at_most(coord + 33, UTF8_COORD_MAX as int) as u32)
    } else {
        seq![at_most(coord + 33, 255) as u8]
    }
}

/// The bytes that report a mouse event in the encoding that the application
/// negotiated.
pub open spec fn mouse_report(
    mode: TermMode,
    code: u8,
    pressed: bool,
    col: int,
    row: int,
) -> Seq<u8> {
    if mode.sgr_mouse {
        sgr_report(code, pressed, col, row)
    } else {
        seq![0x1bu8, '[' as u8, 'M' as u8, (32 + plain_code(code, pressed)) as u8] + plain_coord(
            mode.utf8_mouse,
            col,
        ) + plain_coord(mode.utf8_mouse, row)
    }
}

/// The numbers of a report fit their machine types.
pub open spec fn reportable(mode: TermMode, code: u8, pressed: bool, col: int, row: int) -> bool {
    if mode.sgr_mouse {
        col < usize::MAX && row < usize::MAX
    } else {
        &&& plain_code(code, pressed) <= 223
        &&& col + 33 <= usize::MAX
        &&& row + 33 <= usize::MAX
    }
}

fn push_plain_coord(bytes: &mut Vec<u8>, utf8: bool, coord: usize)
    requires
        coord + 33 <= usize::MAX,
    ensures
        final(bytes)@ == old(bytes)@ + plain_coord(utf8, coord as int),
{
    let n: usize = coord + 33;
    if utf8 {
        let n: u32 = if n < UTF8_COORD_MAX {
            n as u32
        } else {
            2015
        };
        if n <= 0x7f {
            assert(n <= 0x7f ==> (n & 0x7f) as u8 == n as u8) by (bit_vector);
            bytes.push(n as u8);
        } else {
            bytes.push(0xc0 | ((n >> 6) & 0x1f) as u8);
            bytes.push(0x80 | (n & 0x3f) as u8);
        }
    } else {
        bytes.push(
            if n < 255 {
                n as u8
            } else {
                255
            },
        );
    }
    assert(bytes@ =~= old(bytes)@ + plain_coord(utf8, coord as int));
}

/// Encodes one mouse report. `code` is the xterm button code with modifier
/// bits already applied (0, 1, 2 buttons, 64 and 65 wheel, 32 more for
/// motion); `col` and `row` are 0-based viewport cells. SGR goes before UTF-8
/// coordinates, and those before single bytes.
pub fn mouse_report_bytes(mode: TermMode, code: u8, pressed: bool, col: usize, row: usize) -> (bytes:
    Option<Vec<u8>>)
    requires
        reportable(mode, code, pressed, col as int, row as int),
    ensures
        bytes matches Some(b) && b@ == mouse_report(mode, code, pressed, col as int, row as int),
{
    let mut bytes: Vec<u8> = Vec::new();
    bytes.push(0x1b);
    bytes.push('[' as u8);
    if mode.sgr_mouse {
        bytes.push('<' as u8);
        push_decimal(&mut bytes, code as usize);
        bytes.push(';' as u8);
        push_decimal(&mut bytes, col + 1);
        bytes.push(';' as u8);
        push_decimal(&mut bytes, row + 1);
        bytes.push(
            if pressed {
                'M' as u8
            } else {
                'm' as u8
            },
        );
        assert(bytes@ =~= sgr_report(code, pressed, col as int, row as int));
        return Some(bytes);
    }
    assert((3u8 | (code & !3u8)) == (code / 4) * 4 + 3) by (bit_vector);
    let button: u8 = if pressed {
        code
    } else {
        3 | (code & !3)
    };
    bytes.push('M' as u8);
    bytes.push(32 + button);
    push_plain_coord(&mut bytes, mode.utf8_mouse, col);
    push_plain_coord(&mut bytes, mode.utf8_mouse, row);
    assert(bytes@ =~= mouse_report(mode, code, pressed, col as int, row as int));
    Some(bytes)
}

/// An SGR report tells everything: different events have different reports.
pub proof fn sgr_reports_tell_events_apart(
    code1: u8,
    pressed1: bool,
    col1: nat,
    row1: nat,
    code2: u8,
    pressed2: bool,
    col2: nat,
    row2: nat,
)
    requires
        sgr_report(code1, pressed1, col1 as int, row1 as int) == sgr_report(
            code2,
            pressed2,
            col2 as int,
            row2 as int,
        ),
    ensures
        code1 == code2,
        pressed1 == pressed2,
        col1 == col2,
        row1 == row2,
{
    lemma_sgr_fields(code1, pressed1, col1, row1);
    lemma_sgr_fields(code2, pressed2, col2, row2);
    let col_part1 = sgr_from_col(pressed1, col1, row1);
    let col_part2 = sgr_from_col(pressed2, col2, row2);
    let row_part1 = sgr_from_row(pressed1, row1);
    let row_part2 = sgr_from_row(pressed2, row2);
    crate::digits::leading_number_is_unique(code1 as nat, code2 as nat, col_part1, col_part2);
    assert(col_part1.skip(1) == col_part2.skip(1));
    crate::digits::leading_number_is_unique(col1 + 1, col2 + 1, row_part1, row_part2);
    assert(row_part1.skip(1) == row_part2.skip(1));
    crate::digits::leading_number_is_unique(
        row1 + 1,
        row2 + 1,
        sgr_end(pressed1),
        sgr_end(pressed2),
    );
    assert(sgr_end(pressed1)[0] == sgr_end(pressed2)[0]);
}

spec fn sgr_end(pressed: bool) -> Seq<u8> {
    seq![
        if pressed {
            'M' as u8
        } else {
            'm' as u8
        },
    ]
}

#[verifier::opaque]
spec fn sgr_from_row(pressed: bool, row: nat) -> Seq<u8> {
    seq![';' as u8] + (crate::digits::decimal(row + 1) + sgr_end(pressed))
}

#[verifier::opaque]
spec fn sgr_from_col(pressed: bool, col: nat, row: nat) -> Seq<u8> {
    seq![';' as u8] + (crate::digits::decimal(col + 1) + sgr_from_row(pressed, row))
}

/// An SGR report is a prefix, a number, and fields that begin with a
/// semicolon.
proof fn lemma_sgr_fields(code: u8, pressed: bool, col: nat, row: nat)
    ensures
        sgr_report(code, pressed, col as int, row as int).skip(3) == crate::digits::decimal(
            code as nat,
        ) + sgr_from_col(pressed, col, row),
        sgr_from_col(pressed, col, row).len() > 0,
        sgr_from_col(pressed, col, row)[0] == ';' as u8,
        sgr_from_col(pressed, col, row).skip(1) == crate::digits::decimal(col + 1) + sgr_from_row(
            pressed,
            row,
        ),
        sgr_from_row(pressed, row).len() > 0,
        sgr_from_row(pressed, row)[0] == ';' as u8,
        sgr_from_row(pressed, row).skip(1) == crate::digits::decimal(row + 1) + sgr_end(pressed),
{
    reveal(sgr_from_row);
    reveal(sgr_from_col);
    assert(sgr_from_row(pressed, row).skip(1) =~= crate::digits::decimal(row + 1) + sgr_end(
        pressed,
    ));
    assert(sgr_from_col(pressed, col, row).skip(1) =~= crate::digits::decimal(col + 1)
        + sgr_from_row(pressed, row));
    assert(sgr_report(code, pressed, col as int, row as int).skip(3) =~= crate::digits::decimal(
        code as nat,
    ) + sgr_from_col(pressed, col, row));
}

/// Without SGR a release does not tell which button went up: codes that differ
/// in the button alone give the same report.
pub proof fn plain_releases_look_alike(mode: TermMode, code1: u8, code2: u8, col: int, row: int)
    requires
        !mode.sgr_mouse,
        code1 / 4 == code2 / 4,
    ensures
        mouse_report(mode, code1, false, col, row) == mouse_report(mode, code2, false, col, row),
{
}

/// Cells past the largest encodable coordinate are reported as that one.
pub proof fn plain_coordinates_saturate(utf8: bool, coord: int)
    requires
        coord + 33 >= if utf8 { UTF8_COORD_MAX as int } else { 255 },
    ensures
        plain_coord(utf8, coord) == if utf8 {
            seq![0xdfu8, 0x9fu8]
        } else {
            seq![255u8]
        },
{
    let n: u32 = 2015;
    assert(0xc0u8 | ((n >> 6) & 0x1f) as u8 == 0xdf && 0x80u8 | (n & 0x3f) as u8 == 0x9f)
        by (bit_vector)
        requires
            n == 2015u32,
    ;
    assert(plain_coord(utf8, coord) =~= if utf8 {
        seq![0xdfu8, 0x9fu8]
    } else {
        seq![255u8]
    });
}

/// Only the choice of encoding is the modes': SGR before everything, UTF-8
/// coordinates where it is off, and no other mode has a part in a report.
pub proof fn reports_follow_the_encoding(
    mode: TermMode,
    other: TermMode,
    code: u8,
    pressed: bool,
    col: int,
    row: int,
)
    requires
        mode.sgr_mouse == other.sgr_mouse,
        mode.sgr_mouse || mode.utf8_mouse == other.utf8_mouse,
    ensures
        mouse_report(mode, code, pressed, col, row) == mouse_report(
            other,
            code,
            pressed,
            col,
            row,
        ),
{
}

/// An SGR report is `ESC [ <`, then the code and the 1-based column and row in
/// decimal with semicolons between them, then `M` or `m` as the button went
/// down or up. The same event released differs from it in that last byte.
pub proof fn sgr_reports_spell_the_event(
    mode: TermMode,
    code: u8,
    pressed: bool,
    col: nat,
    row: nat,
)
    requires
        mode.sgr_mouse,
    ensures
        ({
            let report = mouse_report(mode, code, pressed, col as int, row as int);
            let other = mouse_report(mode, code, !pressed, col as int, row as int);
            let numbers = crate::digits::decimal(code as nat) + seq![0x3bu8]
                + crate::digits::decimal(col + 1) + seq![0x3bu8] + crate::digits::decimal(row + 1);
            &&& report.len() == numbers.len() + 4
            &&& report.take(3) == seq![0x1bu8, 0x5bu8, 0x3cu8]
            &&& report.subrange(3, report.len() - 1) == numbers
            &&& report.last() == if pressed {
                0x4du8
            } else {
                0x6du8
            }
            &&& other.drop_last() == report.drop_last()
            &&& other.last() != report.last()
        }),
{
    let report = mouse_report(mode, code, pressed, col as int, row as int);
    let other = mouse_report(mode, code, !pressed, col as int, row as int);
    let numbers = crate::digits::decimal(code as nat) + seq![0x3bu8] + crate::digits::decimal(
        col + 1,
    ) + seq![0x3bu8] + crate::digits::decimal(row + 1);
    assert(report.take(3) =~= seq![0x1bu8, 0x5bu8, 0x3cu8]);
    assert(report.subrange(3, report.len() - 1) =~= numbers);
    assert(other.drop_last() =~= report.drop_last());
}

/// A report without SGR is `ESC [ M`, 32 and the code, then the coordinates
/// from 33 on, one byte each up to 255. A press tells its code; a release
/// tells 3 in the place of the two bits of the button and keeps the rest.
pub proof fn byte_reports_spell_the_event(
    mode: TermMode,
    code: u8,
    pressed: bool,
    col: nat,
    row: nat,
)
    requires
        !mode.sgr_mouse,
        !mode.utf8_mouse,
        code <= 223,
    ensures
        ({
            let report = mouse_report(mode, code, pressed, col as int, row as int);
            &&& report.len() == 6
            &&& report[0] == 0x1b && report[1] == 0x5b && report[2] == 0x4d
            &&& pressed ==> report[3] == 32 + code
            &&& !pressed ==> (report[3] - 32) % 4 == 3 && (report[3] - 32) / 4 == code / 4
            &&& col <= 222 ==> report[4] == 33 + col
            &&& col >= 222 ==> report[4] == 255
            &&& row <= 222 ==> report[5] == 33 + row
            &&& row >= 222 ==> report[5] == 255
        }),
{
}

/// With UTF-8 coordinates only the coordinates differ: each is one scalar, 33
/// and the cell, up to 2015.
pub proof fn utf8_reports_spell_the_event(
    mode: TermMode,
    code: u8,
    pressed: bool,
    col: nat,
    row: nat,
)
    requires
        !mode.sgr_mouse,
        mode.utf8_mouse,
    ensures
        ({
            let report = mouse_report(mode, code, pressed, col as int, row as int);
            let bytes = mouse_report(
                TermMode { utf8_mouse: false, ..mode },
                code,
                pressed,
                col as int,
                row as int,
            );
            let x = if col < 1982 {
                33 + col
            } else {
                2015
            };
            let y = if row < 1982 {
                33 + row
            } else {
                2015
            };
            &&& report.take(4) == bytes.take(4)
            &&& report.skip(4) == vstd::utf8::encode_utf8(seq![x as char, y as char])
        }),
{
    let report = mouse_report(mode, code, pressed, col as int, row as int);
    let bytes = mouse_report(
        TermMode { utf8_mouse: false, ..mode },
        code,
        pressed,
        col as int,
        row as int,
    );
    let x: int = if col < 1982 {
        33 + col as int
    } else {
        2015
    };
    let y: int = if row < 1982 {
        33 + row as int
    } else {
        2015
    };
    let text = seq![x as char, y as char];
    assert(report.take(4) =~= bytes.take(4));
    reveal_with_fuel(vstd::utf8::encode_utf8, 3);
    assert(text.drop_first() =~= seq![y as char]);
    assert(text.drop_first().drop_first() =~= Seq::empty());
    assert(vstd::utf8::encode_utf8(text) =~= vstd::utf8::encode_scalar(x as u32)
        + vstd::utf8::encode_scalar(y as u32));
    assert(report.skip(4) =~= vstd::utf8::encode_scalar(x as u32) + vstd::utf8::encode_scalar(
        y as u32,
    ));
}

/// Every event on a cell of a grid can be reported, in every encoding, as long
/// as its code leaves room for 32 more.
pub proof fn grids_can_be_reported(mode: TermMode, code: u8, pressed: bool, col: u16, row: u16)
    requires
        code <= 223,
    ensures
        reportable(mode, code, pressed, col as int, row as int),
{
}

} // verus!
