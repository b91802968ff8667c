//! Pixels laid out row by row, and integers narrowed to 32 bits.

use vstd::arithmetic::div_mod::{lemma_fundamental_div_mod, lemma_fundamental_div_mod_converse};
use vstd::prelude::*;

verus! {

/// The row of the pixel at `i` in a buffer of rows `width` long.
pub open spec fn row_of(i: int, width: int) -> int {
    i / width
}

/// The column of the pixel at `i` in a buffer of rows `width` long.
pub open spec fn col_of(i: int, width: int) -> int {
    i % width
}

/// What a signed 32-bit integer holds after `n` was cut down to its low 32 bits.
pub open spec fn i32_of(n: int) -> int {
    let low = n % 0x1_0000_0000;
    if low < 0x8000_0000 {
        low
    } else {
        low - 0x1_0000_0000
    }
}

/// Cut `n` down to a signed 32-bit integer.
pub(crate) fn narrow(n: u64) -> (r: i32)
    ensures
        r == i32_of(n as int),
{
    let low: u64 = n % 0x1_0000_0000;
    if low < 0x8000_0000 {
        low as i32
    } else {
        (low as i64 - 0x1_0000_0000) as i32
    }
}

/// Row and column of an index, and back.
pub(crate) proof fn lemma_index(x: int, y: int, width: int)
    requires
        0 <= x < width,
        0 <= y,
    ensures
        row_of(y * width + x, width) == y,
        col_of(y * width + x, width) == x,
{
    lemma_fundamental_div_mod_converse(y * width + x, width, y, x);
}

/// An index is its row times the width, plus its column.
pub(crate) proof fn lemma_row_col(i: int, width: int)
    requires
        0 <= i,
        0 < width,
    ensures
        i == row_of(i, width) * width + col_of(i, width),
        0 <= col_of(i, width) < width,
        0 <= row_of(i, width),
{
    lemma_fundamental_div_mod(i, width);
    assert(width * (i / width) == (i / width) * width) by (nonlinear_arith);
    assert(0 <= i / width) by (nonlinear_arith)
        requires
            0 <= i,
            0 < width,
    ;
}

/// A pixel inside a `width` by `height` buffer has an index inside it.
pub(crate) proof fn lemma_index_in_range(x: int, y: int, width: int, height: int)
    requires
        0 <= x < width,
        0 <= y < height,
    ensures
        0 <= y * width + x < width * height,
{
    assert(0 <= y * width + x < width * height) by (nonlinear_arith)
        requires
            0 <= x < width,
            0 <= y < height,
    ;
}

/// Row `y` of a buffer starts `width` pixels after row `y - 1`, and the pixels of a
/// row follow one another.
pub proof fn law_rows_follow_each_other(x: int, y: int, width: int)
    requires
        0 <= x < width,
        0 <= y,
    ensures
        row_of(y * width + x, width) == y,
        col_of(y * width + x, width) == x,
{
    lemma_index(x, y, width);
}

/// Cutting a number down to 32 bits changes it by a multiple of 2^32, into the range
/// of a signed 32-bit integer.
pub proof fn law_narrowing(n: int)
    ensures
        -0x8000_0000 <= i32_of(n) < 0x8000_0000,
        (n - i32_of(n)) % 0x1_0000_0000 == 0,
        -0x8000_0000 <= n < 0x8000_0000 ==> i32_of(n) == n,
{
}

} // verus!
