//! The height-field generator: one walk over the grid that gives every cell
//! a height and a skin.

use vstd::prelude::*;
use crate::grid::{grid_xy_inner_to_i, Cell, CubeIndex, GridXInner, GridYInner, HZ, HZ_BOTTOM, HZ_UNSET};
use crate::layer::CursorInner;
use crate::order::lemma_visit_order_bijection;
use crate::walk::{
    diagonal_of, in_grid, lemma_linear_index_inverse, lemma_linear_index_one_to_one,
    lemma_index_is_of_coord, lemma_linear_index_range, lemma_visits_complete,
    lemma_visits_diagonals_rise, lemma_visits_no_duplicates, linear_index, visit_order, visits_from,
    walk_step, x_falls, Coord, DiagonalOrder, GenMode,
};

verus! {

/// The height of the first cell that a walk comes to.
pub const HZ_FIRST: HZ = 1;

/// The skin of a cell that no roll was left for.
pub const UNROLLED_CUBE_I: CubeIndex = 0;

/// `hz` held to the largest height a cell can have.
pub open spec fn capped(hz: int) -> int {
    if hz > HZ::MAX {
        HZ::MAX as int
    } else {
        hz
    }
}

/// The skin that a roll selects: one of the four that follow the filler's.
pub open spec fn rolled_cube_i(rolled: u32) -> int {
    1 + rolled % 4
}

/// What a roll adds to the height of a cell: its lowest bit on a switchback
/// walk, nothing on a plateau walk.
pub open spec fn rolled_jitter(mode: GenMode, rolled: u32) -> int {
    match mode {
        GenMode::Switchback(_) => rolled as int % 2,
        GenMode::DiagonalPlateaus => 0,
    }
}

/// The height of the cell at `c` before jitter, `c` being the cell that the
/// walk comes to after `k` others: on a switchback walk the height rises by
/// one with every cell, on a plateau walk with every diagonal.
pub open spec fn base_height(mode: GenMode, c: Coord, k: int) -> int {
    match mode {
        GenMode::Switchback(_) => capped(HZ_FIRST + k),
        GenMode::DiagonalPlateaus => capped(HZ_FIRST + c.0 + c.1),
    }
}

/// The cell that generation puts at `c`, the cell that the walk comes to
/// after `k` others, when the roll for it is `rolled`.
pub open spec fn generated_cell(mode: GenMode, c: Coord, k: int, rolled: u32) -> Cell {
    Cell {
        hz: capped(base_height(mode, c, k) + rolled_jitter(mode, rolled)) as HZ,
        cube_i: rolled_cube_i(rolled) as CubeIndex,
    }
}

/// The number of cells that a walk in `mode` over a grid of `w` by `h` comes
/// to before it comes to `c`.
pub open spec fn visit_rank(w: int, h: int, mode: GenMode, c: Coord) -> int {
    visit_order(w, h, w * h, mode).index_of(c)
}

/// The cell that generation leaves at `c`. The cell takes the roll whose
/// place in `rolls` is the cell's place on the walk; a cell that no roll is
/// left for gets the bottom height and the filler's skin.
pub open spec fn generated_at(w: int, h: int, mode: GenMode, rolls: Seq<u32>, c: Coord) -> Cell {
    let k = visit_rank(w, h, mode, c);
    if k < rolls.len() {
        generated_cell(mode, c, k, rolls[k])
    } else {
        Cell { hz: HZ_BOTTOM, cube_i: UNROLLED_CUBE_I }
    }
}

/// The row-major grid of `w` by `h` cells that generation in `mode` makes
/// of `rolls`.
pub open spec fn generated(w: int, h: int, mode: GenMode, rolls: Seq<u32>) -> Seq<Cell> {
    Seq::new((w * h) as nat, |i: int| generated_at(w, h, mode, rolls, (i % w, i / w)))
}

/// `cells` with every unset height replaced by the bottom height.
pub open spec fn with_unset_filled(cells: Seq<Cell>) -> Seq<Cell> {
    cells.map_values(
        |cell: Cell|
            if cell.hz == HZ_UNSET {
                Cell { hz: HZ_BOTTOM, cube_i: cell.cube_i }
            } else {
                cell
            },
    )
}

/// Forces the bottom height on every cell whose height is still unset, so
/// that no cell is drawn as a pit without a floor.
pub fn fill_unset(grid: &mut Vec<Cell>)
    ensures
        final(grid)@ == with_unset_filled(old(grid)@),
{
    let mut i: usize = 0;
    while i < grid.len()
        invariant
            i <= grid.len(),
            grid@.len() == old(grid)@.len(),
            forall|j: int| 0 <= j < i ==> grid@[j] == with_unset_filled(old(grid)@)[j],
            forall|j: int| i <= j < grid@.len() ==> grid@[j] == old(grid)@[j],
        decreases grid.len() - i,
    {
        let cell = grid[i];
        if cell.hz == HZ_UNSET {
            grid.set(i, Cell { hz: HZ_BOTTOM, cube_i: cell.cube_i });
        }
        i += 1;
    }
}

/// The cell that the walk has left at `c`, the `k`-th coordinate it came to.
spec fn placed_cell(mode: GenMode, rolls: Seq<u32>, c: Coord, k: int) -> Cell {
    if k < rolls.len() {
        generated_cell(mode, c, k, rolls[k])
    } else {
        Cell { hz: HZ_UNSET, cube_i: UNROLLED_CUBE_I }
    }
}

/// A grid of `len` cells that are all unset.
fn unset_grid(len: usize) -> (grid: Vec<Cell>)
    ensures
        grid@.len() == len,
        forall|j: int| 0 <= j < len ==> grid@[j] == (Cell { hz: HZ_UNSET, cube_i: UNROLLED_CUBE_I }),
{
    let mut grid: Vec<Cell> = Vec::new();
    while grid.len() < len
        invariant
            grid@.len() <= len,
            forall|j: int|
                0 <= j < grid@.len() ==> grid@[j] == (Cell { hz: HZ_UNSET, cube_i: UNROLLED_CUBE_I }),
        decreases len - grid.len(),
    {
        grid.push(Cell::default());
    }
    grid
}

/// One step of a walk from `xy` in `mode`.
fn step(mode: GenMode, xy: (CursorInner, CursorInner)) -> (next: (GenMode, (CursorInner, CursorInner)))
    requires
        xy.0 < CursorInner::MAX,
        xy.1 < CursorInner::MAX,
    ensures
        (next.0, (next.1.0 as int, next.1.1 as int)) == walk_step(mode, (xy.0 as int, xy.1 as int)),
{
    let (x, y) = xy;
    match mode {
        GenMode::Switchback(DiagonalOrder::Forward) => {
            if x == 0 {
                // setup for reverse
                (GenMode::Switchback(DiagonalOrder::Reverse), (0, y + 1))
            } else {
                (mode, (x - 1, y + 1))
            }
        },
        GenMode::Switchback(DiagonalOrder::Reverse) => {
            if y == 0 {
                // setup for forward
                (GenMode::Switchback(DiagonalOrder::Forward), (x + 1, 0))
            } else {
                (mode, (x + 1, y - 1))
            }
        },
        GenMode::DiagonalPlateaus => {
            // Each diagonal, forward
            if x == 0 {
                (mode, (y + 1, 0))
            } else {
                (mode, (x - 1, y + 1))
            }
        },
    }
}

/// Generates a grid of `W` by `H` cells. The walk in `mode` comes to every
/// coordinate exactly once and gives the cell there a height and a skin;
/// the `k`-th cell on the walk takes `rolls[k]`. Heights rise along the walk
/// and stop at the largest height. Cells that no roll is left for end at the
/// bottom height.
///
/// That the walk never comes to a cell that already has a height is proved
/// here; nothing is left to test while the walk runs.
pub fn generate_grid<const W: u8, const H: u8>(mode: GenMode, rolls: &[u32]) -> (grid: Vec<Cell>)
    ensures
        grid@ == generated(W as int, H as int, mode, rolls@),
        grid@.len() == W as int * H as int,
        forall|i: int| 0 <= i < grid@.len() ==> (#[trigger] grid@[i]).hz != HZ_UNSET,
{
    proof {
        lemma_generated_no_unset(W as int, H as int, mode, rolls@);
    }
    let ghost w = W as int;
    let ghost h = H as int;
    let ghost n = w * h;
    let ghost order = visit_order(w, h, n, mode);
    assert(0 <= n <= 255 * 255) by (nonlinear_arith)
        requires
            n == w * h,
            0 <= w <= 255,
            0 <= h <= 255,
    ;
    let mut grid = unset_grid(W as usize * H as usize);
    if W == 0 || H == 0 {
        assert(n == 0) by (nonlinear_arith)
            requires
                n == w * h,
                w == 0 || h == 0,
        ;
        return grid;
    }
    let last: CursorInner = (W - 1) as CursorInner + (H - 1) as CursorInner;
    let mut x: CursorInner = 0;
    let mut y: CursorInner = 0;
    let mut walk = mode;
    let mut hz: HZ = HZ_FIRST;
    let mut drawn: usize = 0;
    let ghost mut visited: Seq<Coord> = Seq::empty();
    proof {
        lemma_visits_no_duplicates(w, h, n, mode, (0, 0));
        assert forall|c: Coord| in_grid(w, h, c) implies 0 <= linear_index(w, c) < n by {
            lemma_linear_index_range(w, h, c);
        }
    }

    while x + y <= last
        invariant
            w == W as int,
            h == H as int,
            n == w * h,
            W >= 1,
            H >= 1,
            last == W + H - 2,
            x + y <= last + 1,
            grid@.len() == n,
            order == visit_order(w, h, n, mode),
            order.no_duplicates(),
            order == visited + visits_from(w, h, n, walk, (x as int, y as int)),
            (mode is Switchback) == (walk is Switchback),
            drawn <= rolls@.len(),
            drawn == visited.len() || (drawn == rolls@.len() && drawn < visited.len()),
            hz as int == (match mode {
                GenMode::Switchback(_) => capped(HZ_FIRST + drawn),
                GenMode::DiagonalPlateaus => capped(HZ_FIRST + x + y),
            }),
            forall|j: int|
                0 <= j < visited.len() ==> in_grid(w, h, #[trigger] visited[j]) && grid@[linear_index(
                    w,
                    visited[j],
                )] == placed_cell(mode, rolls@, visited[j], j),
            forall|c: Coord|
                in_grid(w, h, c) && !visited.contains(c) ==> (#[trigger] grid@[linear_index(w, c)]).hz
                    == HZ_UNSET && grid@[linear_index(w, c)].cube_i == UNROLLED_CUBE_I,
        decreases last + 1 - (x + y), (if x_falls(walk) { x } else { y }),
    {
        let ghost here: Coord = (x as int, y as int);
        let ghost before = visited;
        if x < W as CursorInner && y < H as CursorInner {
            let i = grid_xy_inner_to_i::<W>((x as GridXInner, y as GridYInner));
            proof {
                lemma_linear_index_range(w, h, here);
                assert(order[before.len() as int] == here);
                assert(!before.contains(here)) by {
                    if before.contains(here) {
                        let j = choose|j: int| 0 <= j < before.len() && before[j] == here;
                        assert(order[j] == here);
                    }
                }
                visited = before.push(here);
            }
            if drawn < rolls.len() {
                let rolled = rolls[drawn];
                let jitter: HZ = match mode {
                    GenMode::Switchback(_) => (rolled & 0b1) as HZ,
                    GenMode::DiagonalPlateaus => 0,
                };
                proof {
                    assert(rolled & 0b1 == rolled % 2) by (bit_vector);
                    assert(rolled & 0b11 == rolled % 4) by (bit_vector);
                }
                let cube_i = (1 + (rolled & 0b11)) as CubeIndex;
                // The walk has not been here before.
                assert(grid@[i as int].hz == HZ_UNSET);
                grid.set(i, Cell { hz: hz.saturating_add(jitter), cube_i });
                drawn += 1;
                match mode {
                    GenMode::Switchback(_) => {
                        hz = hz.saturating_add(1);
                    },
                    GenMode::DiagonalPlateaus => {},
                }
            }
            proof {
                assert forall|j: int| 0 <= j < visited.len() implies in_grid(w, h, #[trigger] visited[j])
                    && grid@[linear_index(w, visited[j])] == placed_cell(mode, rolls@, visited[j], j) by {
                    if j < before.len() {
                        lemma_linear_index_range(w, h, before[j]);
                        if linear_index(w, before[j]) == linear_index(w, here) {
                            lemma_linear_index_one_to_one(w, before[j], here);
                        }
                    }
                }
                assert forall|c: Coord| in_grid(w, h, c) && !visited.contains(c) implies (#[trigger] grid@[linear_index(
                    w,
                    c,
                )]).hz == HZ_UNSET && grid@[linear_index(w, c)].cube_i == UNROLLED_CUBE_I by {
                    lemma_linear_index_range(w, h, c);
                    if before.contains(c) {
                        let j = choose|j: int| 0 <= j < before.len() && before[j] == c;
                        assert(visited[j] == c);
                    }
                    assert(c != here) by {
                        if c == here {
                            assert(visited[before.len() as int] == c);
                        }
                    }
                    if linear_index(w, c) == linear_index(w, here) {
                        lemma_linear_index_one_to_one(w, c, here);
                    }
                }
            }
        } else {
            proof {
                if in_grid(w, h, here) {
                    lemma_linear_index_range(w, h, here);
                }
            }
        }

        let (next_walk, (next_x, next_y)) = step(walk, (x, y));
        walk = next_walk;
        x = next_x;
        y = next_y;

        match mode {
            GenMode::Switchback(_) => {},
            GenMode::DiagonalPlateaus => {
                // If we just reached a new layer
                if y == 0 {
                    hz = hz.saturating_add(1);
                }
            },
        }
    }

    let ghost walked = grid@;
    fill_unset(&mut grid);
    proof {
        assert forall|i: int| 0 <= i < n implies grid@[i] == generated(w, h, mode, rolls@)[i] by {
            // The cell at `i` belongs to a coordinate of the grid; the walk
            // has been there, and has left there what generation asks for.
            let c: Coord = (i % w, i / w);
            lemma_index_is_of_coord(w, h, i);
            lemma_visits_complete(w, h, n, mode, (0, 0), c);
            let k = order.index_of(c);
            assert(visited[k] == c);
            assert(walked[i] == placed_cell(mode, rolls@, c, k));
        }
    }
    grid
}

/// Where generation finds the cell of a coordinate: over a grid of at least
/// one column and one row, the rank of a coordinate of the grid is its
/// place in the order of the walk, and the cell at its linear index is the
/// one generated for it.
pub proof fn lemma_generated_at(w: int, h: int, mode: GenMode, rolls: Seq<u32>, c: Coord)
    requires
        1 <= w,
        1 <= h,
        in_grid(w, h, c),
    ensures
        0 <= visit_rank(w, h, mode, c) < w * h,
        visit_order(w, h, w * h, mode)[visit_rank(w, h, mode, c)] == c,
        0 <= linear_index(w, c) < generated(w, h, mode, rolls).len(),
        generated(w, h, mode, rolls)[linear_index(w, c)] == generated_at(w, h, mode, rolls, c),
{
    lemma_visit_order_bijection(w, h, mode);
    lemma_linear_index_range(w, h, c);
    lemma_linear_index_inverse(w, c);
}

/// Generation leaves no cell unset: every height differs from the unset
/// height.
pub proof fn lemma_generated_no_unset(w: int, h: int, mode: GenMode, rolls: Seq<u32>)
    requires
        0 <= w,
        0 <= h,
    ensures
        forall|i: int|
            0 <= i < generated(w, h, mode, rolls).len() ==> (#[trigger] generated(w, h, mode, rolls)[i]).hz
                != HZ_UNSET,
{
    let grid = generated(w, h, mode, rolls);
    assert forall|i: int| 0 <= i < grid.len() implies (#[trigger] grid[i]).hz != HZ_UNSET by {
        assert(w != 0 && h != 0) by (nonlinear_arith)
            requires
                0 <= i < w * h,
        ;
        let c: Coord = (i % w, i / w);
        lemma_index_is_of_coord(w, h, i);
        lemma_generated_at(w, h, mode, rolls, c);
    }
}

/// Generation is deterministic: two grids generated for the same
/// dimensions, in the same mode, from the same rolls are the same grid.
pub proof fn lemma_generation_deterministic(
    w: int,
    h: int,
    mode: GenMode,
    rolls: Seq<u32>,
    first: Seq<Cell>,
    second: Seq<Cell>,
)
    requires
        first == generated(w, h, mode, rolls),
        second == generated(w, h, mode, rolls),
    ensures
        first == second,
{
}

/// Generation reads of the rolls only the two low bits of the first
/// `w * h`: rolls that agree in these, and are as many where they are
/// fewer, give the same grid.
pub proof fn lemma_generation_reads_low_bits(w: int, h: int, mode: GenMode, a: Seq<u32>, b: Seq<u32>)
    requires
        1 <= w,
        1 <= h,
        a.len() == b.len() || (a.len() >= w * h && b.len() >= w * h),
        forall|k: int| 0 <= k < w * h && k < a.len() ==> #[trigger] a[k] % 4 == b[k] % 4,
    ensures
        generated(w, h, mode, a) == generated(w, h, mode, b),
{
    let ga = generated(w, h, mode, a);
    let gb = generated(w, h, mode, b);
    assert forall|i: int| 0 <= i < ga.len() implies ga[i] == gb[i] by {
        let c: Coord = (i % w, i / w);
        lemma_index_is_of_coord(w, h, i);
        lemma_generated_at(w, h, mode, a, c);
    }
}

/// On a plateau walk with a roll for every cell, all cells of one diagonal
/// share one height: the cell at `c` has the height of the first cell raised
/// by the diagonal of `c`, held to the largest height.
pub proof fn lemma_plateau_heights(w: int, h: int, rolls: Seq<u32>, c: Coord)
    requires
        1 <= w,
        1 <= h,
        in_grid(w, h, c),
        rolls.len() >= w * h,
    ensures
        generated(w, h, GenMode::DiagonalPlateaus, rolls)[linear_index(w, c)].hz == capped(
            HZ_FIRST + diagonal_of(c),
        ),
{
    lemma_generated_at(w, h, GenMode::DiagonalPlateaus, rolls, c);
}

/// On a switchback walk with a roll for every cell, the height before
/// jitter rises by exactly one from each cell of the walk to the next, up
/// to the largest height: the `k`-th cell of the walk has the height of the
/// first cell raised by `k` and by the low bit of its roll.
pub proof fn lemma_switchback_heights(w: int, h: int, first: DiagonalOrder, rolls: Seq<u32>, k: int)
    requires
        1 <= w,
        1 <= h,
        0 <= k < w * h,
        rolls.len() >= w * h,
    ensures
        k < visit_order(w, h, w * h, GenMode::Switchback(first)).len(),
        generated(w, h, GenMode::Switchback(first), rolls)[linear_index(
            w,
            visit_order(w, h, w * h, GenMode::Switchback(first))[k],
        )].hz == capped(capped(HZ_FIRST + k) + rolls[k] % 2),
{
    let mode = GenMode::Switchback(first);
    let order = visit_order(w, h, w * h, mode);
    lemma_visit_order_bijection(w, h, mode);
    let c = order[k];
    lemma_generated_at(w, h, mode, rolls, c);
}

/// With a roll for every cell, heights never fall along the walk: of two
/// cells, the one that the walk comes to later is at least as high.
pub proof fn lemma_heights_rise_along_walk(w: int, h: int, mode: GenMode, rolls: Seq<u32>, i: int, j: int)
    requires
        1 <= w,
        1 <= h,
        0 <= i <= j < w * h,
        rolls.len() >= w * h,
    ensures
        j < visit_order(w, h, w * h, mode).len(),
        generated(w, h, mode, rolls)[linear_index(w, visit_order(w, h, w * h, mode)[i])].hz <= generated(
            w,
            h,
            mode,
            rolls,
        )[linear_index(w, visit_order(w, h, w * h, mode)[j])].hz,
{
    let order = visit_order(w, h, w * h, mode);
    lemma_visit_order_bijection(w, h, mode);
    lemma_visits_diagonals_rise(w, h, w * h, mode, (0, 0));
    // Both coordinates lie in the grid, and since no coordinate comes twice,
    // each is found at its own place on the walk.
    assert(in_grid(w, h, order[i]) && in_grid(w, h, order[j]));
    lemma_generated_at(w, h, mode, rolls, order[i]);
    lemma_generated_at(w, h, mode, rolls, order[j]);
}

/// The skin of a cell that took a roll is one of the four that follow the
/// filler's.
pub proof fn lemma_rolled_cube_i_range(rolled: u32)
    ensures
        1 <= rolled_cube_i(rolled) <= 4,
{
}

} // verus!
