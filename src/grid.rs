//! Facts about row-major offsets in a grid of `r` rows and `c` columns.
use vstd::prelude::*;

verus! {

/// A cell `(i, j)` of an `r`-by-`c` grid has its row-major offset inside the grid.
pub proof fn lemma_cell_offset(i: int, j: int, r: int, c: int)
    requires
        0 <= i < r,
        0 <= j < c,
    ensures
        0 <= i * c + j < r * c,
        i * c <= i * c + j,
{
    assert(i * c + j < r * c) by (nonlinear_arith)
        requires
            0 <= i < r,
            0 <= j < c,
    ;
    assert(0 <= i * c) by (nonlinear_arith)
        requires
            0 <= i,
            0 <= c,
    ;
}

/// Cells taken in row-major order have increasing offsets.
pub proof fn lemma_cell_order(i1: int, j1: int, i2: int, j2: int, c: int)
    requires
        0 <= j1 < c,
        0 <= j2 < c,
        i1 < i2 || (i1 == i2 && j1 < j2),
    ensures
        i1 * c + j1 < i2 * c + j2,
{
    if i1 < i2 {
        assert(i1 * c + c <= i2 * c) by (nonlinear_arith)
            requires
                i1 < i2,
                0 <= c,
        ;
    }
}

/// Every offset of an `r`-by-`c` grid is the offset of some cell.
pub proof fn lemma_offset_cell(p: int, r: int, c: int)
    requires
        0 <= p < r * c,
        0 <= r,
        0 <= c,
    ensures
        c > 0,
        0 <= p / c < r,
        0 <= p % c < c,
        p == (p / c) * c + p % c,
{
    assert(c > 0) by (nonlinear_arith)
        requires
            0 <= p < r * c,
            0 <= r,
            0 <= c,
    ;
    vstd::arithmetic::div_mod::lemma_fundamental_div_mod(p, c);
    vstd::arithmetic::div_mod::lemma_div_pos_is_pos(p, c);
    vstd::arithmetic::div_mod::lemma_mod_pos_bound(p, c);
    vstd::arithmetic::mul::lemma_mul_is_commutative(c, p / c);
    assert(p == (p / c) * c + p % c);
    if p / c >= r {
        assert((p / c) * c >= r * c) by (nonlinear_arith)
            requires
                p / c >= r,
                c > 0,
        ;
        assert(p % c >= 0);
        assert(false);
    }
}

} // verus!
