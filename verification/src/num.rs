//! Integer arithmetic that several modules share.

use vstd::prelude::*;

verus! {

/// The remainder of `a` by `m` that takes the sign of `a`.
pub open spec fn rem(a: int, m: int) -> int {
    if a >= 0 {
        a % m
    } else {
        -((-a) % m)
    }
}

/// The quotient of `a` by `m`, rounded toward zero.
pub open spec fn quot(a: int, m: int) -> int {
    if a >= 0 {
        a / m
    } else {
        -((-a) / m)
    }
}

/// The larger of two integers.
pub open spec fn larger(a: int, b: int) -> int {
    if a >= b {
        a
    } else {
        b
    }
}

/// `v` brought into `lo..=hi`.
pub open spec fn bounded(v: int, lo: int, hi: int) -> int {
    if v < lo {
        lo
    } else if v > hi {
        hi
    } else {
        v
    }
}

/// Two numbers that are not negative have a product that is not.
pub proof fn lemma_product_not_negative(a: int, b: int)
    requires
        0 <= a,
        0 <= b,
    ensures
        0 <= a * b,
{
    assert(0 <= a * b) by (nonlinear_arith)
        requires
            0 <= a,
            0 <= b,
    ;
}

/// A number is its row and its column in a grid `pitch` wide.
pub proof fn lemma_cell(p: int, pitch: int)
    requires
        pitch > 0,
    ensures
        p == (p / pitch) * pitch + p % pitch,
        0 <= p % pitch < pitch,
{
    vstd::arithmetic::div_mod::lemma_fundamental_div_mod(p, pitch);
    assert(pitch * (p / pitch) == (p / pitch) * pitch) by (nonlinear_arith);
}

/// A row and a column are recovered from the number that they make.
pub proof fn lemma_cell_at(row: int, col: int, pitch: int)
    requires
        0 <= col < pitch,
    ensures
        (row * pitch + col) / pitch == row,
        (row * pitch + col) % pitch == col,
{
    vstd::arithmetic::div_mod::lemma_fundamental_div_mod_converse(
        row * pitch + col,
        pitch,
        row,
        col,
    );
}

/// A cell of a grid `rows` high and `width` wide, laid out at `pitch`, lies
/// before the end of the last row.
pub proof fn lemma_cell_inside(row: int, col: int, rows: int, width: int, pitch: int)
    requires
        0 <= row < rows,
        0 <= col < width <= pitch,
    ensures
        0 <= row * pitch + col < (rows - 1) * pitch + width,
        row * pitch <= row * pitch + col,
{
    assert(0 <= row * pitch <= (rows - 1) * pitch) by (nonlinear_arith)
        requires
            0 <= row <= rows - 1,
            0 <= pitch,
    ;
}

/// Quotient and remainder rounded toward zero make up the number, and the
/// remainder is smaller than the divisor and has the number's sign.
pub proof fn law_rounds_toward_zero(a: int, m: int)
    requires
        m > 0,
    ensures
        quot(a, m) * m + rem(a, m) == a,
        a >= 0 ==> 0 <= rem(a, m) < m,
        a <= 0 ==> -m < rem(a, m) <= 0,
{
    if a >= 0 {
        lemma_cell(a, m);
    } else {
        lemma_cell(-a, m);
        assert((-((-a) / m)) * m == -(((-a) / m) * m)) by (nonlinear_arith);
    }
}

} // verus!
