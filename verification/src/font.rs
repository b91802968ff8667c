//! The 5x7 bitmap font of the dimension label.

use vstd::prelude::*;

verus! {

/// Columns of a glyph.
pub const GLYPH_W: usize = 5;

/// Rows of a glyph.
pub const GLYPH_H: usize = 7;

/// The digits `0` to `9`. Each glyph is seven rows; each row encodes its columns
/// left to right in bits 4 to 0.
pub const DIGIT_GLYPHS: [[u8; 7]; 10] = [
    [0b01110, 0b10001, 0b10011, 0b10101, 0b11001, 0b10001, 0b01110],
    [0b00100, 0b01100, 0b00100, 0b00100, 0b00100, 0b00100, 0b01110],
    [0b01110, 0b10001, 0b00001, 0b00110, 0b01000, 0b10000, 0b11111],
    [0b01110, 0b10001, 0b00001, 0b00110, 0b00001, 0b10001, 0b01110],
    [0b00010, 0b00110, 0b01010, 0b10010, 0b11111, 0b00010, 0b00010],
    [0b11111, 0b10000, 0b11110, 0b00001, 0b00001, 0b10001, 0b01110],
    [0b00110, 0b01000, 0b10000, 0b11110, 0b10001, 0b10001, 0b01110],
    [0b11111, 0b00001, 0b00010, 0b00100, 0b01000, 0b01000, 0b01000],
    [0b01110, 0b10001, 0b10001, 0b01110, 0b10001, 0b10001, 0b01110],
    [0b01110, 0b10001, 0b10001, 0b01111, 0b00001, 0b00010, 0b01100],
];

/// The sign between width and height, for the letter `x` and for the
/// multiplication sign U+00D7.
pub const CROSS_GLYPH: [u8; 7] = [
    0b00000, 0b10001, 0b01010, 0b00100, 0b01010, 0b10001, 0b00000,
];

/// The rows of the glyph of `c`, where the font has one.
pub open spec fn glyph(c: char) -> Option<[u8; 7]> {
    if '0' <= c <= '9' {
        Some(DIGIT_GLYPHS[c as int - '0' as int])
    } else if c == 'x' || c == '\u{d7}' {
        Some(CROSS_GLYPH)
    } else {
        None
    }
}

/// The weight of the bit that encodes a column.
pub open spec fn column_weight(col: int) -> int {
    if col == 0 {
        16
    } else if col == 1 {
        8
    } else if col == 2 {
        4
    } else if col == 3 {
        2
    } else {
        1
    }
}

/// Whether the glyph of `c` has ink at a column and row.
pub open spec fn inked(c: char, col: int, row: int) -> bool {
    match glyph(c) {
        Some(rows) => rows[row] as int / column_weight(col) % 2 == 1,
        None => false,
    }
}

/// The bitmap of a digit, of `x` or of the multiplication sign, or `None` if the font lacks it.
pub fn glyph_for(c: char) -> (r: Option<[u8; 7]>)
    ensures
        r == glyph(c),
        c == '0' ==> r == Some(DIGIT_GLYPHS[0]),
        c == '1' ==> r == Some(DIGIT_GLYPHS[1]),
        c == '2' ==> r == Some(DIGIT_GLYPHS[2]),
        c == '3' ==> r == Some(DIGIT_GLYPHS[3]),
        c == '4' ==> r == Some(DIGIT_GLYPHS[4]),
        c == '5' ==> r == Some(DIGIT_GLYPHS[5]),
        c == '6' ==> r == Some(DIGIT_GLYPHS[6]),
        c == '7' ==> r == Some(DIGIT_GLYPHS[7]),
        c == '8' ==> r == Some(DIGIT_GLYPHS[8]),
        c == '9' ==> r == Some(DIGIT_GLYPHS[9]),
        c == 'x' || c == '\u{d7}' ==> r == Some(CROSS_GLYPH),
        r is Some <==> '0' <= c <= '9' || c == 'x' || c == '\u{d7}',
{
    if '0' <= c && c <= '9' {
        Some(DIGIT_GLYPHS[(c as u32 - '0' as u32) as usize])
    } else if c == 'x' || c == '\u{d7}' {
        Some(CROSS_GLYPH)
    } else {
        None
    }
}

/// Whether the glyph of `c` has ink at a column and row.
pub(crate) fn has_ink(c: char, col: usize, row: usize) -> (r: bool)
    requires
        col < GLYPH_W,
        row < GLYPH_H,
    ensures
        r == inked(c, col as int, row as int),
{
    let weight: u8 = match col {
        0 => 16,
        1 => 8,
        2 => 4,
        3 => 2,
        _ => 1,
    };
    match glyph_for(c) {
        Some(rows) => rows[row] / weight % 2 == 1,
        None => false,
    }
}

/// The rows of a glyph.
pub open spec fn drawn_as(c: char, rows: Seq<int>) -> bool {
    glyph(c) is Some && rows.len() == 7 && forall|i: int|
        0 <= i < 7 ==> #[trigger] glyph(c)->0[i] == rows[i]
}

/// Every character of the font has its own picture, seven rows of five columns.
pub proof fn law_pictures_of_the_font()
    ensures
        drawn_as('0', seq![0b01110, 0b10001, 0b10011, 0b10101, 0b11001, 0b10001, 0b01110]),
        drawn_as('1', seq![0b00100, 0b01100, 0b00100, 0b00100, 0b00100, 0b00100, 0b01110]),
        drawn_as('2', seq![0b01110, 0b10001, 0b00001, 0b00110, 0b01000, 0b10000, 0b11111]),
        drawn_as('3', seq![0b01110, 0b10001, 0b00001, 0b00110, 0b00001, 0b10001, 0b01110]),
        drawn_as('4', seq![0b00010, 0b00110, 0b01010, 0b10010, 0b11111, 0b00010, 0b00010]),
        drawn_as('5', seq![0b11111, 0b10000, 0b11110, 0b00001, 0b00001, 0b10001, 0b01110]),
        drawn_as('6', seq![0b00110, 0b01000, 0b10000, 0b11110, 0b10001, 0b10001, 0b01110]),
        drawn_as('7', seq![0b11111, 0b00001, 0b00010, 0b00100, 0b01000, 0b01000, 0b01000]),
        drawn_as('8', seq![0b01110, 0b10001, 0b10001, 0b01110, 0b10001, 0b10001, 0b01110]),
        drawn_as('9', seq![0b01110, 0b10001, 0b10001, 0b01111, 0b00001, 0b00010, 0b01100]),
        drawn_as('x', seq![0b00000, 0b10001, 0b01010, 0b00100, 0b01010, 0b10001, 0b00000]),
        drawn_as('\u{d7}', seq![0b00000, 0b10001, 0b01010, 0b00100, 0b01010, 0b10001, 0b00000]),
{
}

/// Only digits and the cross are in the font, each digit at its own place in the
/// table, and no two digits look alike.
pub proof fn law_digits_have_their_own_glyphs(d: int, e: int, c: char)
    ensures
        0 <= d < 10 ==> glyph((48 + d) as char) == Some(DIGIT_GLYPHS[d]),
        0 <= d < 10 && 0 <= e < 10 && glyph((48 + d) as char) == glyph((48 + e) as char) ==> d == e,
        glyph(c) is Some <==> 48 <= c as int <= 57 || c == 'x' || c == '\u{d7}',
{
    law_pictures_of_the_font();
}

/// The ink of a row, read as a binary number from the left, is the row of the glyph.
pub proof fn law_ink_is_binary(c: char, row: int)
    requires
        glyph(c) is Some,
        0 <= row < 7,
    ensures
        ({
            let bit = |col: int|
                if inked(c, col, row) {
                    1int
                } else {
                    0int
                };
            glyph(c)->0[row] == 16 * bit(0) + 8 * bit(1) + 4 * bit(2) + 2 * bit(3) + bit(4)
        }),
{
    law_pictures_of_the_font();
}

} // verus!
