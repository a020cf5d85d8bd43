//! Small numeric spec helpers shared by the generator, the visibility
//! engine, and the unit-step arithmetic.

use vstd::arithmetic::div_mod::{lemma_div_pos_is_pos, lemma_multiply_divide_lt};
use vstd::prelude::*;

verus! {

pub open spec fn min_i(a: int, b: int) -> int {
    if a < b {
        a
    } else {
        b
    }
}

pub open spec fn max_i(a: int, b: int) -> int {
    if a < b {
        b
    } else {
        a
    }
}

pub open spec fn abs_i(a: int) -> int {
    if a < 0 {
        -a
    } else {
        a
    }
}

/// Squared Euclidean distance between `(ax, ay)` and `(bx, by)`.
pub open spec fn dist2(ax: int, ay: int, bx: int, by: int) -> int {
    (bx - ax) * (bx - ax) + (by - ay) * (by - ay)
}

/// `i * d / n` rounded to the nearest integer, halves up: the offset of the
/// `i`-th sample point of a discrete line whose major axis spans `n` cells
/// and whose minor axis spans `d`.
pub open spec fn sample_offset(i: int, d: int, n: int) -> int {
    (2 * i * d + n) / (2 * n)
}

/// Along the line, the rounded offset never leaves `[0, d]`.
pub proof fn lemma_sample_offset_bounds(i: int, d: int, n: int)
    requires
        0 <= i <= n,
        0 <= d <= n,
        1 <= n,
    ensures
        0 <= sample_offset(i, d, n) <= d,
{
    lemma_div_pos_is_pos(2 * i * d + n, 2 * n);
    assert(2 * i * d + n < (2 * n) * (d + 1)) by (nonlinear_arith)
        requires
            0 <= i <= n,
            0 <= d,
            1 <= n,
    ;
    lemma_multiply_divide_lt(2 * i * d + n, 2 * n, d + 1);
}

} // verus!
