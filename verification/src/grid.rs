//! The subpixels of a pixel.
//!
//! A pixel is traced as a square grid of subpixels. The subpixels are
//! numbered from zero, column by column: the horizontal index of a cell is
//! the slow one, the vertical index the fast one. Subpixel `(i, j)` is
//! traced `i` and `j` times the size of a subpixel away from the pixel's own
//! corner, and the size of a subpixel is one over the side of the grid.

use crate::number::Number;
use vstd::prelude::*;

verus! {

/// The number of subpixels in a grid of side `side`.
pub open spec fn grid_size(side: nat) -> nat {
    side * side
}

/// The cell of subpixel number `k` in a grid of side `side`: its horizontal
/// index, then its vertical index.
pub open spec fn cell_of(side: nat, k: nat) -> (nat, nat) {
    (k / side, k % side)
}

/// The number of the subpixel in cell `(i, j)` of a grid of side `side`.
pub open spec fn index_of(side: nat, i: nat, j: nat) -> nat {
    i * side + j
}

/// The number of subpixels in a grid of side `side`: the square of the side.
pub fn sample_count(side: u32) -> (n: u64)
    ensures
        n == grid_size(side as nat),
{
    let s: u64 = side as u64;
    assert(s * s <= 0xffff_ffff * 0xffff_ffff) by (nonlinear_arith)
        requires
            s <= 0xffff_ffff,
    ;
    s * s
}

/// The cell of subpixel number `k` in a grid of side `side`, or `None` where
/// the grid has no such subpixel. Counting `k` up from zero until `None`
/// comes visits the grid column by column.
pub fn subpixel(side: u32, k: u64) -> (cell: Option<(u32, u32)>)
    ensures
        match cell {
            Some((i, j)) => k < grid_size(side as nat) && (i as nat, j as nat) == cell_of(
                side as nat,
                k as nat,
            ),
            None => k >= grid_size(side as nat),
        },
{
    if k >= sample_count(side) {
        return None;
    }
    let s: u64 = side as u64;
    proof {
        lemma_cell_lies_in_grid(side as nat, k as nat);
    }
    Some(((k / s) as u32, (k % s) as u32))
}

/// Whether `size` is a value that the numbers can give for the size of a
/// subpixel in a grid of side `side`: one over the side.
pub open spec fn is_subpixel_size<S: Number>(side: u32, size: S) -> bool {
    crate::number::is_ratio(1, side, size)
}

/// Whether `offset` is a value that the numbers can give for the offset of
/// the subpixels of index `i`, where `size` is the size of a subpixel: the
/// index, made a number, times the size.
pub open spec fn is_offset<S: Number>(size: S, i: u32, offset: S) -> bool {
    exists|index: S|
        crate::number::is_whole(i, index) && #[trigger] crate::number::is_product(
            index,
            size,
            offset,
        )
}

/// The offset of the subpixels of index `i`, where `size` is the size of a
/// subpixel.
pub fn offset<S: Number>(size: S, i: u32) -> (offset: S)
    requires
        crate::number::is_total::<S>(),
    ensures
        is_offset(size, i, offset),
{
    let index = S::from(i);
    let offset = index * size;
    assert(crate::number::is_product(index, size, offset));
    offset
}

/// An index has one offset where each operation of the numbers gives one
/// result.
pub proof fn lemma_offset_is_unique<S: Number>(size: S, i: u32, p: S, q: S)
    requires
        is_offset(size, i, p),
        is_offset(size, i, q),
        crate::number::is_exact::<S>(),
    ensures
        p == q,
{
    let a = choose|index: S|
        crate::number::is_whole(i, index) && #[trigger] crate::number::is_product(index, size, p);
    let b = choose|index: S|
        crate::number::is_whole(i, index) && #[trigger] crate::number::is_product(index, size, q);
    assert(a == b);
}

/// Every subpixel number below the grid's size names a cell of the grid, and
/// the cell gives the number back.
pub proof fn lemma_cell_lies_in_grid(side: nat, k: nat)
    requires
        k < grid_size(side),
    ensures
        side > 0,
        cell_of(side, k).0 < side,
        cell_of(side, k).1 < side,
        index_of(side, cell_of(side, k).0, cell_of(side, k).1) == k,
{
    let s = side as int;
    let n = k as int;
    assert(s > 0) by (nonlinear_arith)
        requires
            0 <= s,
            0 <= n < s * s,
    ;
    assert(0 <= n / s < s && 0 <= n % s < s && n == (n / s) * s + n % s) by (nonlinear_arith)
        requires
            0 <= n < s * s,
            s > 0,
    ;
}

/// Every cell of the grid has a subpixel number below the grid's size, and
/// the number gives the cell back. With the lemma above: the numbers below
/// the grid's size and the cells of the grid match one to one.
pub proof fn lemma_cell_has_a_number(side: nat, i: nat, j: nat)
    requires
        i < side,
        j < side,
    ensures
        index_of(side, i, j) < grid_size(side),
        cell_of(side, index_of(side, i, j)) == (i, j),
{
    let s = side as int;
    let a = i as int;
    let b = j as int;
    assert(a * s + b < s * s) by (nonlinear_arith)
        requires
            0 <= a < s,
            0 <= b < s,
    ;
    assert((a * s + b) / s == a && (a * s + b) % s == b) by (nonlinear_arith)
        requires
            0 <= a,
            0 <= b < s,
    ;
}

/// The numbering runs column by column: the next number is the next cell
/// down, and after the last cell of a column the first cell of the next.
pub proof fn lemma_numbering_runs_by_column(side: nat, i: nat, j: nat)
    requires
        i < side,
        j < side,
    ensures
        j + 1 < side ==> index_of(side, i, j) + 1 == index_of(side, i, j + 1),
        j + 1 == side ==> index_of(side, i, j) + 1 == index_of(side, i + 1, 0),
{
    let s = side as int;
    let a = i as int;
    assert((a + 1) * s == a * s + s) by (nonlinear_arith);
}

} // verus!
