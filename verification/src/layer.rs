//! The diagonal enumerator: every cell of a grid exactly once, in an order in
//! which plain sequential drawing lets nearer blocks cover farther ones.

use vstd::prelude::*;
use crate::grid::{grid_xy_to_i, Cell, GridX, GridXInner, GridY, GridYInner};
use crate::order::{drawn_before, lemma_diagonal_order_bijection, lemma_diagonal_order_sorted};
use crate::walk::{
    diagonal_of, diagonal_order, holds_cell, in_grid, lemma_empty_grid_has_no_visits,
    lemma_linear_index_range, lemma_visits_ahead, lemma_visits_complete, linear_index, visits_from,
    Coord, GenMode,
};

verus! {

/// A position of the enumerator's cursor on one axis. It is wider than a
/// grid coordinate, since the cursor leaves the grid on either side of a
/// diagonal.
pub type CursorInner = u16;

/// The number of bits that one cursor position is shifted by when a cursor
/// is packed into a single number.
pub const CURSOR_BITS: u32 = 16;

/// A cell together with its coordinate, as the enumerators hand it out.
pub type Placed<const W: u8, const H: u8> = ((GridX<W>, GridY<H>), Cell);

/// What a handed-out pair says: the coordinate as integers, and the cell.
pub open spec fn placed_view<const W: u8, const H: u8>(item: Placed<W, H>) -> (Coord, Cell) {
    ((item.0.0@, item.0.1@), item.1)
}

/// The cell of a row-major grid of `w` columns that lies at `c`.
pub open spec fn cell_at(w: int, cells: Seq<Cell>, c: Coord) -> Cell {
    cells[linear_index(w, c)]
}

/// Each coordinate of `coords` with the cell that lies there.
pub open spec fn with_cells(w: int, cells: Seq<Cell>, coords: Seq<Coord>) -> Seq<(Coord, Cell)> {
    coords.map_values(|c: Coord| (c, cell_at(w, cells, c)))
}

/// The cells of a grid of `w` by `h` in drawing order, each with its
/// coordinate. A coordinate whose linear index lies beyond `cells` is left
/// out.
pub open spec fn layer_order(w: int, h: int, cells: Seq<Cell>) -> Seq<(Coord, Cell)> {
    with_cells(w, cells, diagonal_order(w, h, cells.len() as int))
}

/// Whether the diagonal walk over a grid of `w` by `h`, standing at `c`, has
/// not yet passed the last cell `(w - 1, h - 1)`: `c` lies on an earlier
/// diagonal, or on the last one at a column no smaller than `w - 1`.
pub open spec fn more_left(w: int, h: int, c: Coord) -> bool {
    &&& w >= 1
    &&& h >= 1
    &&& (diagonal_of(c) < w + h - 2 || (diagonal_of(c) == w + h - 2 && c.0 >= w - 1))
}

/// A cursor as one number: the column in the high bits, the row in the low
/// ones, so that numbers compare as cursors on one diagonal do.
pub open spec fn packed(x: CursorInner, y: CursorInner) -> u32 {
    (x as u32) << CURSOR_BITS | (y as u32)
}

/// Once the walk has passed the last cell, it comes to no cell any more.
pub proof fn lemma_none_left(w: int, h: int, len: int, c: Coord)
    requires
        !more_left(w, h, c),
    ensures
        visits_from(w, h, len, GenMode::DiagonalPlateaus, c) =~= Seq::<Coord>::empty(),
{
    let s = visits_from(w, h, len, GenMode::DiagonalPlateaus, c);
    lemma_visits_ahead(w, h, len, GenMode::DiagonalPlateaus, c);
    if s.len() > 0 {
        assert(holds_cell(w, h, len, s[0]));
    }
}

/// While the walk has not passed the last cell of a grid with a cell
/// behind every coordinate, it still comes to a cell; afterwards it comes
/// to none.
pub proof fn lemma_more_left_iff_visits(w: int, h: int, c: Coord)
    requires
        0 <= c.0,
        0 <= c.1,
    ensures
        more_left(w, h, c) <==> visits_from(w, h, w * h, GenMode::DiagonalPlateaus, c).len() > 0,
{
    let mode = GenMode::DiagonalPlateaus;
    if more_left(w, h, c) {
        let last: Coord = (w - 1, h - 1);
        lemma_linear_index_range(w, h, last);
        lemma_visits_complete(w, h, w * h, mode, c, last);
    } else {
        lemma_none_left(w, h, w * h, c);
    }
}

/// The enumerator is a bijection: over a grid of at least one column and
/// one row that holds `w * h` cells, the drawing order has exactly `w * h`
/// pairs, no coordinate twice, and for every coordinate of the grid the
/// pair of that coordinate and the cell that lies there.
pub proof fn lemma_layer_order_bijection(w: int, h: int, cells: Seq<Cell>)
    requires
        1 <= w,
        1 <= h,
        cells.len() == w * h,
    ensures
        layer_order(w, h, cells).len() == w * h,
        forall|i: int, j: int|
            0 <= i < j < layer_order(w, h, cells).len() ==> (#[trigger] layer_order(w, h, cells)[i]).0
                != (#[trigger] layer_order(w, h, cells)[j]).0,
        forall|i: int|
            0 <= i < layer_order(w, h, cells).len() ==> {
                &&& in_grid(w, h, (#[trigger] layer_order(w, h, cells)[i]).0)
                &&& layer_order(w, h, cells)[i].1 == cell_at(w, cells, layer_order(w, h, cells)[i].0)
            },
        forall|c: Coord|
            in_grid(w, h, c) ==> layer_order(w, h, cells).contains((c, #[trigger] cell_at(w, cells, c))),
{
    let coords = diagonal_order(w, h, w * h);
    let order = layer_order(w, h, cells);
    lemma_diagonal_order_bijection(w, h);
    assert forall|i: int| 0 <= i < order.len() implies in_grid(w, h, (#[trigger] order[i]).0) by {
        assert(coords.contains(coords[i]));
    }
    assert forall|c: Coord| in_grid(w, h, c) implies order.contains((c, #[trigger] cell_at(w, cells, c))) by {
        let i = choose|i: int| 0 <= i < coords.len() && coords[i] == c;
        assert(order[i] == (c, cell_at(w, cells, c)));
    }
}

/// In drawing order the diagonal never falls from one pair to the next, and
/// along one diagonal the column falls: a later pair lies on a later
/// diagonal, or on the same diagonal at a smaller `x`.
pub proof fn lemma_layer_order_sorted(w: int, h: int, cells: Seq<Cell>)
    ensures
        forall|i: int|
            0 <= i && i + 1 < layer_order(w, h, cells).len() ==> diagonal_of(
                (#[trigger] layer_order(w, h, cells)[i]).0,
            ) <= diagonal_of(layer_order(w, h, cells)[i + 1].0),
        forall|i: int, j: int|
            0 <= i < j < layer_order(w, h, cells).len() ==> drawn_before(
                (#[trigger] layer_order(w, h, cells)[i]).0,
                (#[trigger] layer_order(w, h, cells)[j]).0,
            ),
{
    lemma_diagonal_order_sorted(w, h, cells.len() as int);
    let coords = diagonal_order(w, h, cells.len() as int);
    let order = layer_order(w, h, cells);
    assert forall|i: int, j: int| 0 <= i < j < order.len() implies drawn_before(
        (#[trigger] order[i]).0,
        (#[trigger] order[j]).0,
    ) by {
        assert(drawn_before(coords[i], coords[j]));
    }
    assert forall|i: int| 0 <= i && i + 1 < order.len() implies diagonal_of((#[trigger] order[i]).0)
        <= diagonal_of(order[i + 1].0) by {
        assert(drawn_before(order[i].0, order[i + 1].0));
    }
}

/// Whether the diagonal walk over a grid of `W` by `H` cells, standing at
/// `xy`, still has work ahead. On the last diagonal the answer is the
/// comparison of the packed cursor with the packed last coordinate.
/// `max_index` does not enter into it.
#[allow(unused_variables)]
pub fn more_indexes_are_left<const W: u8, const H: u8>(
    xy: (CursorInner, CursorInner),
    max_index: usize,
) -> (more: bool)
    ensures
        more == more_left(W as int, H as int, (xy.0 as int, xy.1 as int)),
        W >= 1 && H >= 1 && xy.0 + xy.1 == (W - 1) + (H - 1) ==> more == (packed(xy.0, xy.1)
            >= packed((W - 1) as CursorInner, (H - 1) as CursorInner)),
{
    if W == 0 || H == 0 {
        return false;
    }
    let (x, y) = xy;
    let sum: u32 = x as u32 + y as u32;
    let max_x: CursorInner = (W - 1) as CursorInner;
    let max_y: CursorInner = (H - 1) as CursorInner;
    let max_index_sum: u32 = max_x as u32 + max_y as u32;

    if sum > max_index_sum {
        false
    } else if sum == max_index_sum {
        // With the last coordinate (2, 1): (3, 0) and (2, 1) are still to be
        // looked at, (1, 2) is past the end.
        // 0x0003_0000 >= 0x0002_0001: true
        // 0x0002_0001 >= 0x0002_0001: true
        // 0x0001_0002 >= 0x0002_0001: false
        assert(((x as u32) << 16 | (y as u32)) >= ((max_x as u32) << 16 | (max_y as u32)) <==> (x
            > max_x || (x == max_x && y >= max_y))) by (bit_vector);
        ((x as u32) << CURSOR_BITS | (y as u32)) >= ((max_x as u32) << CURSOR_BITS | (max_y as u32))
    } else {
        true
    }
}

/// The diagonal enumerator over a borrowed row-major grid of `W` by `H`
/// cells.
pub struct LayerDrawIter<'grid, const W: u8, const H: u8> {
    grid: &'grid [Cell],
    x: CursorInner,
    y: CursorInner,
}

impl<'grid, const W: u8, const H: u8> LayerDrawIter<'grid, W, H> {
    /// The cells that the enumerator reads.
    pub closed spec fn cells(self) -> Seq<Cell> {
        self.grid@
    }

    /// What is still to come, in order.
    pub closed spec fn remaining(self) -> Seq<(Coord, Cell)> {
        with_cells(
            W as int,
            self.grid@,
            visits_from(
                W as int,
                H as int,
                self.grid@.len() as int,
                GenMode::DiagonalPlateaus,
                (self.x as int, self.y as int),
            ),
        )
    }

    /// A fresh enumerator: the whole drawing order is still to come. Over a
    /// grid with a cell for every coordinate that is one pair for each
    /// coordinate; over a grid without columns or rows it is nothing.
    pub fn of(grid: &'grid [Cell]) -> (it: Self)
        ensures
            it.cells() == grid@,
            it.remaining() == layer_order(W as int, H as int, grid@),
            W >= 1 && H >= 1 && grid@.len() == W as int * H as int ==> it.remaining().len() == W as int
                * H as int,
            W == 0 || H == 0 ==> it.remaining().len() == 0,
    {
        proof {
            if W >= 1 && H >= 1 && grid@.len() == W as int * H as int {
                lemma_layer_order_bijection(W as int, H as int, grid@);
            }
            if W == 0 || H == 0 {
                lemma_empty_grid_has_no_visits(
                    W as int,
                    H as int,
                    grid@.len() as int,
                    GenMode::DiagonalPlateaus,
                );
            }
        }
        Self { grid, x: 0, y: 0 }
    }

    /// Hands out the next cell of the drawing order, or `None` once every
    /// cell has been handed out.
    pub fn next(&mut self) -> (out: Option<Placed<W, H>>)
        ensures
            final(self).cells() == old(self).cells(),
            match out {
                Some(item) => {
                    &&& old(self).remaining().len() > 0
                    &&& placed_view(item) == old(self).remaining()[0]
                    &&& final(self).remaining() == old(self).remaining().skip(1)
                },
                None => {
                    &&& old(self).remaining().len() == 0
                    &&& final(self).remaining().len() == 0
                },
            },
    {
        loop
            invariant
                self.grid == old(self).grid,
                self.remaining() == old(self).remaining(),
            decreases W + H - (self.x + self.y), self.x,
        {
            let x = self.x;
            let y = self.y;
            let ghost here: Coord = (x as int, y as int);
            let ghost len = self.grid@.len() as int;
            if !more_indexes_are_left::<W, H>((x, y), self.grid.len().saturating_sub(1)) {
                proof {
                    lemma_none_left(W as int, H as int, len, here);
                }
                return None;
            }
            // Iterate in such a way that with a naive draw loop things
            // overlap correctly: all the coordinates with a given sum, then
            // those with the next sum, each diagonal from its far end.

            if x == 0 {
                self.x = y + 1;
                self.y = 0;
            } else {
                self.x = x - 1;
                self.y = y + 1;
            }
            if x < W as CursorInner && y < H as CursorInner {
                let xy = (GridX::<W>::clamped(x as GridXInner), GridY::<H>::clamped(y as GridYInner));
                let index = grid_xy_to_i::<W, H>(xy);
                if index < self.grid.len() {
                    // A cell lies here: it is the first of what was to come.
                    assert(holds_cell(W as int, H as int, len, here));
                    return Some((xy, self.grid[index]));
                }
            }
            // No cell lies here: what is to come is what was to come.
            assert(!holds_cell(W as int, H as int, len, here));
        }
    }

    /// Hands out everything that is still to come, in order.
    pub fn collect(self) -> (all: Vec<Placed<W, H>>)
        ensures
            all@.map_values(|item: Placed<W, H>| placed_view(item)) == self.remaining(),
    {
        let ghost whole = self.remaining();
        let ghost view = |item: Placed<W, H>| placed_view(item);
        let ghost mut done: int = 0;
        let mut iter = self;
        let mut all: Vec<Placed<W, H>> = Vec::new();
        loop
            invariant
                view == |item: Placed<W, H>| placed_view(item),
                0 <= done <= whole.len(),
                iter.remaining() == whole.skip(done),
                all@.map_values(view) == whole.take(done),
            ensures
                all@.map_values(view) == whole,
            decreases iter.remaining().len(),
        {
            match iter.next() {
                Some(item) => {
                    all.push(item);
                    proof {
                        assert(whole.take(done + 1) =~= whole.take(done).push(whole[done]));
                        done = done + 1;
                    }
                },
                None => {
                    break ;
                },
            }
        }
        all
    }
}

} // verus!
