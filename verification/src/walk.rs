//! The walks that visit the grid diagonal by diagonal, as mathematics.
//!
//! A walk moves over the quarter plane of non-negative coordinates one
//! diagonal (`x + y` constant) after another and keeps the coordinates that
//! hold a cell. The drawing order and both height-field generation orders are
//! such walks; they differ only in the direction in which a diagonal is
//! travelled.

use vstd::prelude::*;

verus! {

/// A grid coordinate as a pair of mathematical integers, `(x, y)`.
pub type Coord = (int, int);

/// The direction of travel along a diagonal.
#[derive(Clone, Copy, Debug, PartialEq, Eq, Structural)]
pub enum DiagonalOrder {
    /// `x` falls and `y` rises.
    Forward,
    /// `x` rises and `y` falls.
    Reverse,
}

/// How a walk chooses the direction of each diagonal.
#[derive(Clone, Copy, Debug, PartialEq, Eq, Structural)]
pub enum GenMode {
    /// Serpentine: the direction flips at the end of every diagonal. The
    /// field is the direction of the diagonal being travelled.
    Switchback(DiagonalOrder),
    /// Every diagonal is travelled forward.
    DiagonalPlateaus,
}

/// The diagonal that `c` lies on.
pub open spec fn diagonal_of(c: Coord) -> int {
    c.0 + c.1
}

/// Whether `x` falls along the diagonal that a walk in `mode` is travelling.
pub open spec fn x_falls(mode: GenMode) -> bool {
    mode != GenMode::Switchback(DiagonalOrder::Reverse)
}

/// One step of a walk: the mode and coordinate that follow `c`.
pub open spec fn walk_step(mode: GenMode, c: Coord) -> (GenMode, Coord) {
    match mode {
        GenMode::Switchback(DiagonalOrder::Forward) => if c.0 == 0 {
            (GenMode::Switchback(DiagonalOrder::Reverse), (0, c.1 + 1))
        } else {
            (mode, (c.0 - 1, c.1 + 1))
        },
        GenMode::Switchback(DiagonalOrder::Reverse) => if c.1 == 0 {
            (GenMode::Switchback(DiagonalOrder::Forward), (c.0 + 1, 0))
        } else {
            (mode, (c.0 + 1, c.1 - 1))
        },
        GenMode::DiagonalPlateaus => if c.0 == 0 {
            (mode, (c.1 + 1, 0))
        } else {
            (mode, (c.0 - 1, c.1 + 1))
        },
    }
}

/// Whether `c` lies in a grid of `w` columns and `h` rows.
pub open spec fn in_grid(w: int, h: int, c: Coord) -> bool {
    0 <= c.0 < w && 0 <= c.1 < h
}

/// The row-major linear index of `c` in a grid of `w` columns.
pub open spec fn linear_index(w: int, c: Coord) -> int {
    c.1 * w + c.0
}

/// Whether `c` lies in the grid and its linear index is below `len`, the
/// number of cells that back the grid.
pub open spec fn holds_cell(w: int, h: int, len: int, c: Coord) -> bool {
    in_grid(w, h, c) && linear_index(w, c) < len
}

/// Whether a walk that stands at `c` has not yet left the last diagonal of
/// the grid, `(w - 1) + (h - 1)`.
pub open spec fn on_walk(w: int, h: int, c: Coord) -> bool {
    0 <= c.0 && 0 <= c.1 && diagonal_of(c) <= w + h - 2
}

/// The coordinates that hold a cell, in the order in which a walk that
/// stands at `c` in `mode` comes to them.
pub open spec fn visits_from(w: int, h: int, len: int, mode: GenMode, c: Coord) -> Seq<Coord>
    decreases w + h - 1 - diagonal_of(c), (if x_falls(mode) { c.0 } else { c.1 }),
{
    if !on_walk(w, h, c) {
        Seq::empty()
    } else {
        let next = walk_step(mode, c);
        let rest = visits_from(w, h, len, next.0, next.1);
        if holds_cell(w, h, len, c) {
            seq![c] + rest
        } else {
            rest
        }
    }
}

/// The whole order of a walk in `mode`: it starts at the origin.
pub open spec fn visit_order(w: int, h: int, len: int, mode: GenMode) -> Seq<Coord> {
    visits_from(w, h, len, mode, (0, 0))
}

/// The drawing order of a grid of `w` by `h` cells backed by `len` cells:
/// diagonal after diagonal, each from its largest `x` down.
pub open spec fn diagonal_order(w: int, h: int, len: int) -> Seq<Coord> {
    visit_order(w, h, len, GenMode::DiagonalPlateaus)
}

/// Whether a walk that stands at `c` in `mode` is still to come to `p`: `p`
/// lies on a later diagonal, or on the same one at or after `c`.
pub open spec fn ahead(mode: GenMode, c: Coord, p: Coord) -> bool {
    diagonal_of(p) > diagonal_of(c) || (diagonal_of(p) == diagonal_of(c) && if x_falls(mode) {
        p.0 <= c.0
    } else {
        p.1 <= c.1
    })
}

/// Everything a walk visits from `c` on holds a cell and is ahead of `c`.
pub proof fn lemma_visits_ahead(w: int, h: int, len: int, mode: GenMode, c: Coord)
    ensures
        forall|i: int|
            0 <= i < visits_from(w, h, len, mode, c).len() ==> {
                &&& holds_cell(w, h, len, #[trigger] visits_from(w, h, len, mode, c)[i])
                &&& ahead(mode, c, visits_from(w, h, len, mode, c)[i])
            },
    decreases w + h - 1 - diagonal_of(c), (if x_falls(mode) { c.0 } else { c.1 }),
{
    let s = visits_from(w, h, len, mode, c);
    if on_walk(w, h, c) {
        let next = walk_step(mode, c);
        let rest = visits_from(w, h, len, next.0, next.1);
        lemma_visits_ahead(w, h, len, next.0, next.1);
        assert forall|i: int| 0 <= i < s.len() implies holds_cell(w, h, len, #[trigger] s[i])
            && ahead(mode, c, s[i]) by {
            // `s` is `rest`, after `c` where `c` holds a cell.
        }
    }
}

/// A walk comes to no coordinate twice.
pub proof fn lemma_visits_no_duplicates(w: int, h: int, len: int, mode: GenMode, c: Coord)
    ensures
        visits_from(w, h, len, mode, c).no_duplicates(),
    decreases w + h - 1 - diagonal_of(c), (if x_falls(mode) { c.0 } else { c.1 }),
{
    if on_walk(w, h, c) {
        let next = walk_step(mode, c);
        lemma_visits_no_duplicates(w, h, len, next.0, next.1);
        lemma_visits_ahead(w, h, len, next.0, next.1);
    }
}

/// Along a walk the diagonal never falls: of two visits, the later one lies
/// on the same or a later diagonal.
pub proof fn lemma_visits_diagonals_rise(w: int, h: int, len: int, mode: GenMode, c: Coord)
    ensures
        forall|i: int, j: int|
            0 <= i <= j < visits_from(w, h, len, mode, c).len() ==> diagonal_of(
                #[trigger] visits_from(w, h, len, mode, c)[i],
            ) <= diagonal_of(#[trigger] visits_from(w, h, len, mode, c)[j]),
    decreases w + h - 1 - diagonal_of(c), (if x_falls(mode) { c.0 } else { c.1 }),
{
    let s = visits_from(w, h, len, mode, c);
    if on_walk(w, h, c) {
        let next = walk_step(mode, c);
        let rest = visits_from(w, h, len, next.0, next.1);
        lemma_visits_diagonals_rise(w, h, len, next.0, next.1);
        lemma_visits_ahead(w, h, len, next.0, next.1);
        assert forall|i: int, j: int| 0 <= i <= j < s.len() implies diagonal_of(#[trigger] s[i])
            <= diagonal_of(#[trigger] s[j]) by {
            // `s` is `rest`, after `c` where `c` holds a cell.
        }
    }
}

/// A walk comes to every coordinate that holds a cell and is ahead of it.
pub proof fn lemma_visits_complete(w: int, h: int, len: int, mode: GenMode, c: Coord, p: Coord)
    requires
        0 <= c.0,
        0 <= c.1,
        holds_cell(w, h, len, p),
        ahead(mode, c, p),
    ensures
        visits_from(w, h, len, mode, c).contains(p),
    decreases w + h - 1 - diagonal_of(c), (if x_falls(mode) { c.0 } else { c.1 }),
{
    let s = visits_from(w, h, len, mode, c);
    if p == c {
        assert(s[0] == p);
    } else {
        let next = walk_step(mode, c);
        lemma_visits_complete(w, h, len, next.0, next.1, p);
        let rest = visits_from(w, h, len, next.0, next.1);
        let k = choose|k: int| 0 <= k < rest.len() && rest[k] == p;
        if holds_cell(w, h, len, c) {
            assert(s[k + 1] == p);
        }
    }
}

/// In a grid of `w` columns, a coordinate is the remainder and the quotient
/// of its linear index by `w`.
pub proof fn lemma_linear_index_inverse(w: int, c: Coord)
    requires
        0 <= c.0 < w,
    ensures
        linear_index(w, c) % w == c.0,
        linear_index(w, c) / w == c.1,
{
    vstd::arithmetic::div_mod::lemma_fundamental_div_mod_converse(linear_index(w, c), w, c.1, c.0);
}

/// Two coordinates of one grid with the same linear index are the same.
pub proof fn lemma_linear_index_one_to_one(w: int, a: Coord, b: Coord)
    requires
        0 <= a.0 < w,
        0 <= b.0 < w,
        linear_index(w, a) == linear_index(w, b),
    ensures
        a == b,
{
    lemma_linear_index_inverse(w, a);
    lemma_linear_index_inverse(w, b);
}

/// The linear index of a coordinate of the grid is the index of a cell:
/// it is below the number of coordinates.
pub proof fn lemma_linear_index_range(w: int, h: int, c: Coord)
    requires
        in_grid(w, h, c),
    ensures
        0 <= linear_index(w, c) < w * h,
{
    assert(c.1 * w + w <= h * w) by (nonlinear_arith)
        requires
            c.1 + 1 <= h,
            0 < w,
    ;
    assert(0 <= c.1 * w) by (nonlinear_arith)
        requires
            0 <= c.1,
            0 < w,
    ;
}

/// Every index of a cell is the linear index of a coordinate of the grid:
/// of its remainder and its quotient by the number of columns.
pub proof fn lemma_index_is_of_coord(w: int, h: int, i: int)
    requires
        0 < w,
        0 <= i < w * h,
    ensures
        in_grid(w, h, (i % w, i / w)),
        linear_index(w, (i % w, i / w)) == i,
{
    vstd::arithmetic::div_mod::lemma_fundamental_div_mod(i, w);
    vstd::arithmetic::div_mod::lemma_mod_bound(i, w);
    vstd::arithmetic::div_mod::lemma_div_pos_is_pos(i, w);
    assert(i / w < h) by (nonlinear_arith)
        requires
            0 <= i < w * h,
            0 < w,
            i == w * (i / w) + i % w,
            0 <= i % w,
    ;
    assert((i / w) * w == w * (i / w)) by (nonlinear_arith);
}

/// A grid without columns or without rows has nothing to visit.
pub proof fn lemma_empty_grid_has_no_visits(w: int, h: int, len: int, mode: GenMode)
    requires
        w <= 0 || h <= 0,
    ensures
        visit_order(w, h, len, mode).len() == 0,
{
    let order = visit_order(w, h, len, mode);
    lemma_visits_ahead(w, h, len, mode, (0, 0));
    if order.len() > 0 {
        assert(holds_cell(w, h, len, order[0]));
    }
}

} // verus!
