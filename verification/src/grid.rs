//! The grid coordinate space: bounded coordinates, cells and the row-major
//! mapping between a coordinate pair and a linear index.

use vstd::prelude::*;

verus! {

/// Index of a visual skin on the block sprite sheet.
pub type CubeIndex = u8;

/// A height in half-height units: two units per rendered block.
pub type HZ = u8;

/// The height that under-fill counts down from, and the height forced on any
/// cell that generation left unset.
pub const HZ_BOTTOM: HZ = 32;

/// The height of a cell that generation has not reached yet.
pub const HZ_UNSET: HZ = 0;

/// The integer that a grid coordinate is held in.
pub type GridInner = u8;

/// The integer that a column is held in.
pub type GridXInner = GridInner;

/// The integer that a row is held in.
pub type GridYInner = GridInner;

/// One block of the grid: its height and the skin it is drawn with.
#[derive(Clone, Copy, Debug, PartialEq, Eq, Structural)]
pub struct Cell {
    pub hz: HZ,
    pub cube_i: CubeIndex,
}

impl Default for Cell {
    /// A cell that generation has not reached yet.
    fn default() -> (cell: Self)
        ensures
            cell == (Cell { hz: HZ_UNSET, cube_i: 0 }),
    {
        Cell { hz: HZ_UNSET, cube_i: 0 }
    }
}

/// The largest coordinate on an axis of `dim` positions; 0 on an empty axis.
pub open spec fn axis_max(dim: int) -> int {
    if dim <= 1 {
        0
    } else {
        dim - 1
    }
}

/// `inner` brought into `[0, axis_max(dim)]`.
pub open spec fn clamp_to_axis(dim: int, inner: int) -> int {
    if inner <= 0 {
        0
    } else if inner >= axis_max(dim) {
        axis_max(dim)
    } else {
        inner
    }
}

/// A column of a grid that is `W` cells wide.
#[derive(Clone, Copy, Debug, PartialEq, Eq, PartialOrd, Ord)]
pub struct GridX<const W: u8>(GridXInner);

impl<const W: u8> GridX<W> {
    #[verifier::type_invariant]
    spec fn in_bounds(self) -> bool {
        self.0 <= axis_max(W as int)
    }

    /// The column as a mathematical integer.
    pub closed spec fn view(self) -> int {
        self.0 as int
    }

    /// The column nearest to `inner` on the axis.
    pub fn clamped(inner: GridXInner) -> (x: Self)
        ensures
            x@ == clamp_to_axis(W as int, inner as int),
    {
        if W <= 1 {
            GridX(0)
        } else if inner >= W - 1 {
            GridX(W - 1)
        } else {
            GridX(inner)
        }
    }

    /// The column `inner` places towards the start of the axis, or the first
    /// column if there are fewer.
    pub fn saturating_sub(self, inner: GridXInner) -> (x: Self)
        ensures
            x@ == clamp_to_axis(W as int, self@ - inner),
    {
        Self::clamped(self.0.saturating_sub(inner))
    }

    /// The column `inner` places towards the end of the axis, or the last column
    /// if there are fewer.
    pub fn saturating_add(self, inner: GridXInner) -> (x: Self)
        ensures
            x@ == clamp_to_axis(W as int, self@ + inner),
    {
        proof {
            use_type_invariant(self);
        }
        Self::clamped(self.0.saturating_add(inner))
    }

    /// The column as a plain integer; it lies on the axis.
    pub fn get(self) -> (inner: GridXInner)
        ensures
            inner as int == self@,
            inner as int <= axis_max(W as int),
    {
        proof {
            use_type_invariant(self);
        }
        self.0
    }
}

impl<const W: u8> Default for GridX<W> {
    /// The first column.
    fn default() -> (x: Self)
        ensures
            x@ == 0,
    {
        GridX(0)
    }
}

/// A row of a grid that is `H` cells high.
#[derive(Clone, Copy, Debug, PartialEq, Eq, PartialOrd, Ord)]
pub struct GridY<const H: u8>(GridYInner);

impl<const H: u8> GridY<H> {
    #[verifier::type_invariant]
    spec fn in_bounds(self) -> bool {
        self.0 <= axis_max(H as int)
    }

    /// The row as a mathematical integer.
    pub closed spec fn view(self) -> int {
        self.0 as int
    }

    /// The row nearest to `inner` on the axis.
    pub fn clamped(inner: GridYInner) -> (y: Self)
        ensures
            y@ == clamp_to_axis(H as int, inner as int),
    {
        if H <= 1 {
            GridY(0)
        } else if inner >= H - 1 {
            GridY(H - 1)
        } else {
            GridY(inner)
        }
    }

    /// The row `inner` places towards the start of the axis, or the first
    /// row if there are fewer.
    pub fn saturating_sub(self, inner: GridYInner) -> (y: Self)
        ensures
            y@ == clamp_to_axis(H as int, self@ - inner),
    {
        Self::clamped(self.0.saturating_sub(inner))
    }

    /// The row `inner` places towards the end of the axis, or the last row
    /// if there are fewer.
    pub fn saturating_add(self, inner: GridYInner) -> (y: Self)
        ensures
            y@ == clamp_to_axis(H as int, self@ + inner),
    {
        proof {
            use_type_invariant(self);
        }
        Self::clamped(self.0.saturating_add(inner))
    }

    /// The row as a plain integer; it lies on the axis.
    pub fn get(self) -> (inner: GridYInner)
        ensures
            inner as int == self@,
            inner as int <= axis_max(H as int),
    {
        proof {
            use_type_invariant(self);
        }
        self.0
    }
}

impl<const H: u8> Default for GridY<H> {
    /// The first row.
    fn default() -> (y: Self)
        ensures
            y@ == 0,
    {
        GridY(0)
    }
}

/// The linear index of the cell at column `xy.0` of row `xy.1`, rows being
/// `W` cells long. A column of the grid and its row can be read back from
/// the index as remainder and quotient.
pub fn grid_xy_inner_to_i<const W: u8>(xy: (GridXInner, GridYInner)) -> (i: usize)
    ensures
        i as int == xy.1 as int * W as int + xy.0 as int,
        xy.0 < W ==> i as int % W as int == xy.0 as int && i as int / W as int == xy.1 as int,
{
    let (x, y) = xy;
    proof {
        assert(y as int * W as int <= 255 * 255) by (nonlinear_arith)
            requires
                0 <= y as int <= 255,
                0 <= W as int <= 255,
        ;
        if x < W {
            vstd::arithmetic::div_mod::lemma_fundamental_div_mod_converse(
                y as int * W as int + x as int,
                W as int,
                y as int,
                x as int,
            );
        }
    }
    y as usize * W as usize + x as usize
}

/// The linear index of the cell at a coordinate of the grid. In a grid that
/// has cells, it is the index of one of them.
pub fn grid_xy_to_i<const W: u8, const H: u8>(xy: (GridX<W>, GridY<H>)) -> (i: usize)
    ensures
        i as int == xy.1@ * W as int + xy.0@,
        W >= 1 && H >= 1 ==> (i as int) < W as int * H as int,
{
    let (x, y) = xy;
    let x = x.get();
    let y = y.get();
    proof {
        if W >= 1 && H >= 1 {
            assert(y as int * W as int + W as int <= H as int * W as int) by (nonlinear_arith)
                requires
                    y as int + 1 <= H as int,
                    0 < W as int,
            ;
        }
    }
    grid_xy_inner_to_i::<W>((x, y))
}

/// The column and row of the cell at linear index `i`, rows being `W` cells
/// long: the remainder and the quotient of `i` by `W`. The row has to fit
/// the integer that a row is held in.
pub fn grid_i_to_xy<const W: u8>(i: usize) -> (xy: (GridXInner, GridYInner))
    requires
        W > 0,
        i as int / W as int <= GridYInner::MAX as int,
    ensures
        xy.0 as int == i as int % W as int,
        xy.1 as int == i as int / W as int,
        xy.1 as int * W as int + xy.0 as int == i as int,
{
    proof {
        vstd::arithmetic::div_mod::lemma_fundamental_div_mod(i as int, W as int);
        vstd::arithmetic::div_mod::lemma_mod_bound(i as int, W as int);
        assert(W as int * (i as int / W as int) == (i as int / W as int) * W as int)
            by (nonlinear_arith);
    }
    ((i % W as usize) as GridXInner, (i / W as usize) as GridYInner)
}

} // verus!
