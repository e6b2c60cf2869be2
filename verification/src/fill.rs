//! Under-fill: the drawing order with plain filler blocks put beneath every
//! cell, so that a tall stack does not float above empty space.

use vstd::prelude::*;
use crate::grid::{Cell, HZ, HZ_BOTTOM};
use crate::layer::{layer_order, placed_view, LayerDrawIter, Placed};
use crate::walk::Coord;

verus! {

/// How far apart two filler blocks of one stack are: a block is two
/// half-height units high, so blocks two units apart do not overlap.
pub const FILL_STEP: HZ = 2;

/// The skin of a filler block.
pub const FILLER_CUBE_I: u8 = 0;

/// The number of filler blocks that go beneath a cell of height `hz` when
/// the running fill height is `from`.
pub open spec fn filler_count(from: int, hz: int) -> nat {
    if from <= hz {
        0
    } else {
        ((from - hz + FILL_STEP - 1) / (FILL_STEP as int)) as nat
    }
}

/// The heights of these filler blocks, in the order in which they are drawn:
/// `from`, one step below `from`, and so on while the height is above `hz`.
pub open spec fn filler_heights(from: int, hz: int) -> Seq<int> {
    Seq::new(filler_count(from, hz), |k: int| from - FILL_STEP * k)
}

/// The filler blocks beneath `placed` as cells at its coordinate.
pub open spec fn fillers(from: int, placed: (Coord, Cell)) -> Seq<(Coord, Cell)> {
    filler_heights(from, placed.1.hz as int).map_values(
        |hz: int| (placed.0, Cell { hz: hz as HZ, cube_i: FILLER_CUBE_I }),
    )
}

/// `pairs` with the filler blocks of each cell put in front of it. Every
/// stack of fillers counts down from `bottom`.
pub open spec fn under_fill(bottom: int, pairs: Seq<(Coord, Cell)>) -> Seq<(Coord, Cell)>
    decreases pairs.len(),
{
    if pairs.len() == 0 {
        Seq::empty()
    } else {
        fillers(bottom, pairs[0]) + seq![pairs[0]] + under_fill(bottom, pairs.skip(1))
    }
}

/// A stack of fillers is its top block followed by the stack that starts one
/// step lower, where the lower start stops at 0.
pub proof fn lemma_fillers_unfold(from: int, placed: (Coord, Cell))
    requires
        from > placed.1.hz,
    ensures
        fillers(from, placed) =~= seq![(placed.0, Cell { hz: from as HZ, cube_i: FILLER_CUBE_I })]
            + fillers(if from >= FILL_STEP { from - FILL_STEP } else { 0 }, placed),
{
    let lower = if from >= FILL_STEP { from - FILL_STEP } else { 0 };
    let whole = fillers(from, placed);
    let tail = fillers(lower, placed);
    assert forall|k: int| 1 <= k < whole.len() implies whole[k] == tail[k - 1] by {}
}

/// No filler goes beneath a cell that reaches the running fill height.
pub proof fn lemma_fillers_none(from: int, placed: (Coord, Cell))
    requires
        from <= placed.1.hz,
    ensures
        fillers(from, placed) =~= Seq::<(Coord, Cell)>::empty(),
{
}

/// Whether `drawn` is `placed` itself or one of the fillers beneath it when
/// they count down from `bottom`: a plain block at the same coordinate,
/// above the height of `placed` and no higher than `bottom`.
pub open spec fn drawn_for(bottom: int, placed: (Coord, Cell), drawn: (Coord, Cell)) -> bool {
    ||| drawn == placed
    ||| {
        &&& drawn.0 == placed.0
        &&& drawn.1.cube_i == FILLER_CUBE_I
        &&& placed.1.hz < drawn.1.hz <= bottom
    }
}

/// Under-fill draws nothing but the given cells and fillers beneath them.
pub proof fn lemma_under_fill_members(bottom: int, pairs: Seq<(Coord, Cell)>, i: int)
    requires
        bottom <= HZ::MAX,
        0 <= i < under_fill(bottom, pairs).len(),
    ensures
        exists|j: int|
            0 <= j < pairs.len() && drawn_for(bottom, #[trigger] pairs[j], under_fill(bottom, pairs)[i]),
    decreases pairs.len(),
{
    let first = fillers(bottom, pairs[0]);
    if i > first.len() {
        // The pair comes after the first cell: it is drawn for a later one.
        let rest = pairs.skip(1);
        lemma_under_fill_members(bottom, rest, i - first.len() - 1);
        let drawn = under_fill(bottom, rest)[i - first.len() - 1];
        let j = choose|j: int| 0 <= j < rest.len() && drawn_for(bottom, #[trigger] rest[j], drawn);
        assert(rest[j] == pairs[j + 1]);
    } else {
        assert(drawn_for(bottom, pairs[0], under_fill(bottom, pairs)[i]));
    }
}

/// The number of fillers that under-fill puts beneath the cells of `pairs`.
pub open spec fn fillers_total(bottom: int, pairs: Seq<(Coord, Cell)>) -> nat
    decreases pairs.len(),
{
    if pairs.len() == 0 {
        0
    } else {
        filler_count(bottom, pairs[0].1.hz as int) + fillers_total(bottom, pairs.skip(1))
    }
}

/// Under-fill draws as many pairs as there are cells and fillers together.
pub proof fn lemma_under_fill_len(bottom: int, pairs: Seq<(Coord, Cell)>)
    ensures
        under_fill(bottom, pairs).len() == pairs.len() + fillers_total(bottom, pairs),
    decreases pairs.len(),
{
    if pairs.len() > 0 {
        lemma_under_fill_len(bottom, pairs.skip(1));
    }
}

/// A cell that reaches the bottom height is drawn without fillers, and a
/// lower one with a filler for every second height from the bottom down to
/// above its own.
pub proof fn lemma_filler_heights(bottom: int, hz: int)
    ensures
        bottom <= hz ==> filler_heights(bottom, hz).len() == 0,
        bottom > hz ==> filler_heights(bottom, hz).len() == (bottom - hz + 1) / 2,
        bottom > hz ==> filler_heights(bottom, hz)[0] == bottom,
        forall|k: int|
            0 <= k < filler_heights(bottom, hz).len() ==> #[trigger] filler_heights(bottom, hz)[k] == bottom
                - FILL_STEP * k && filler_heights(bottom, hz)[k] > hz,
{
}

/// The under-fill wrapper round the diagonal enumerator.
pub struct DrawIter<'grid, const W: u8, const H: u8> {
    layer_iter: LayerDrawIter<'grid, W, H>,
    peeked: Option<Placed<W, H>>,
    hz: HZ,
    bottom: HZ,
}

impl<'grid, const W: u8, const H: u8> DrawIter<'grid, W, H> {
    /// The cells that the wrapper reads.
    pub closed spec fn cells(self) -> Seq<Cell> {
        self.layer_iter.cells()
    }

    /// The height that every stack of fillers counts down from.
    pub closed spec fn bottom(self) -> int {
        self.bottom as int
    }

    /// What is still to come, in order.
    pub closed spec fn remaining(self) -> Seq<(Coord, Cell)> {
        match self.peeked {
            None => Seq::empty(),
            Some(item) => fillers(self.hz as int, placed_view(item)) + seq![placed_view(item)]
                + under_fill(self.bottom as int, self.layer_iter.remaining()),
        }
    }

    /// The under-filled drawing order of `grid`, counting down from
    /// `HZ_BOTTOM`.
    pub fn of(grid: &'grid [Cell]) -> (it: Self)
        ensures
            it.cells() == grid@,
            it.bottom() == HZ_BOTTOM,
            it.remaining() == under_fill(HZ_BOTTOM as int, layer_order(W as int, H as int, grid@)),
    {
        Self::with_bottom(grid, HZ_BOTTOM)
    }

    /// The under-filled drawing order of `grid`, counting down from `bottom`.
    pub fn with_bottom(grid: &'grid [Cell], bottom: HZ) -> (it: Self)
        ensures
            it.cells() == grid@,
            it.bottom() == bottom,
            it.remaining() == under_fill(bottom as int, layer_order(W as int, H as int, grid@)),
    {
        let mut layer_iter = LayerDrawIter::of(grid);
        let peeked = layer_iter.next();
        Self { layer_iter, peeked, hz: bottom, bottom }
    }

    /// Hands out the next pair: a filler while the running fill height is
    /// above the next cell, else that cell itself.
    pub fn next(&mut self) -> (out: Option<Placed<W, H>>)
        ensures
            final(self).cells() == old(self).cells(),
            final(self).bottom() == old(self).bottom(),
            match out {
                Some(item) => {
                    &&& old(self).remaining().len() > 0
                    &&& placed_view(item) == old(self).remaining()[0]
                    &&& final(self).remaining() == old(self).remaining().skip(1)
                },
                None => {
                    &&& old(self).remaining().len() == 0
                    &&& final(self).remaining().len() == 0
                },
            },
    {
        // add more cells to fill below things
        if let Some(placed) = self.peeked {
            let (xy, cell) = placed;
            let hz = self.hz;

            // Move up 2 so we don't get overlapping cubes
            self.hz = self.hz.saturating_sub(FILL_STEP);

            if hz <= cell.hz {
                proof {
                    lemma_fillers_none(hz as int, placed_view(placed));
                }
                self.hz = self.bottom;
                self.peeked = self.layer_iter.next();
                Some(placed)
            } else {
                proof {
                    lemma_fillers_unfold(hz as int, placed_view(placed));
                }
                Some((xy, Cell { hz, cube_i: FILLER_CUBE_I }))
            }
        } else {
            None
        }
    }

    /// Hands out everything that is still to come, in order.
    pub fn collect(self) -> (all: Vec<Placed<W, H>>)
        ensures
            all@.map_values(|item: Placed<W, H>| placed_view(item)) == self.remaining(),
    {
        let ghost whole = self.remaining();
        let ghost view = |item: Placed<W, H>| placed_view(item);
        let ghost mut done: int = 0;
        let mut iter = self;
        let mut all: Vec<Placed<W, H>> = Vec::new();
        loop
            invariant
                view == |item: Placed<W, H>| placed_view(item),
                0 <= done <= whole.len(),
                iter.remaining() == whole.skip(done),
                all@.map_values(view) == whole.take(done),
            ensures
                all@.map_values(view) == whole,
            decreases iter.remaining().len(),
        {
            match iter.next() {
                Some(item) => {
                    all.push(item);
                    proof {
                        assert(whole.take(done + 1) =~= whole.take(done).push(whole[done]));
                        done = done + 1;
                    }
                },
                None => {
                    break ;
                },
            }
        }
        all
    }
}

} // verus!
