//! The laws of the walks: each is a bijection onto the grid, and each is the
//! one list of the grid's coordinates that is sorted the way the walk
//! travels.

use vstd::prelude::*;
use crate::walk::{
    diagonal_of, diagonal_order, holds_cell, in_grid, lemma_index_is_of_coord,
    lemma_linear_index_one_to_one,
    lemma_linear_index_range, lemma_visits_ahead, lemma_visits_complete, lemma_visits_diagonals_rise,
    lemma_visits_no_duplicates, linear_index, on_walk, visit_order, visits_from, walk_step, Coord,
    DiagonalOrder, GenMode,
};

verus! {

/// The direction in which a switchback walk travels diagonal `d` when it
/// travels the first diagonal in direction `first`: the directions
/// alternate.
pub open spec fn direction_on(first: DiagonalOrder, d: int) -> DiagonalOrder {
    if d % 2 == 0 {
        first
    } else {
        match first {
            DiagonalOrder::Forward => DiagonalOrder::Reverse,
            DiagonalOrder::Reverse => DiagonalOrder::Forward,
        }
    }
}

/// Whether `x` falls along diagonal `d` of a walk that starts in `mode`.
pub open spec fn x_falls_on(mode: GenMode, d: int) -> bool {
    match mode {
        GenMode::DiagonalPlateaus => true,
        GenMode::Switchback(first) => direction_on(first, d) == DiagonalOrder::Forward,
    }
}

/// Whether a walk that starts in `mode` comes to `a` before it comes to
/// `b`: `a` lies on an earlier diagonal, or on the same diagonal before `b`
/// in the direction of that diagonal.
pub open spec fn visited_before(mode: GenMode, a: Coord, b: Coord) -> bool {
    diagonal_of(a) < diagonal_of(b) || (diagonal_of(a) == diagonal_of(b) && if x_falls_on(
        mode,
        diagonal_of(a),
    ) {
        a.0 > b.0
    } else {
        a.0 < b.0
    })
}

/// Whether `a` comes before `b` in drawing order: on an earlier diagonal,
/// or on the same diagonal at a larger `x`.
pub open spec fn drawn_before(a: Coord, b: Coord) -> bool {
    visited_before(GenMode::DiagonalPlateaus, a, b)
}

/// Whether `s` lists its coordinates in the order in which a walk that
/// starts in `mode` comes to them.
pub open spec fn in_visit_order(mode: GenMode, s: Seq<Coord>) -> bool {
    forall|i: int, j: int| 0 <= i < j < s.len() ==> visited_before(mode, #[trigger] s[i], #[trigger] s[j])
}

/// Whether `s` lists its coordinates in drawing order.
pub open spec fn in_drawing_order(s: Seq<Coord>) -> bool {
    in_visit_order(GenMode::DiagonalPlateaus, s)
}

/// Whether `now` is the mode in which a walk that started in `start`
/// travels the diagonal of `c`.
pub open spec fn mode_on(start: GenMode, now: GenMode, c: Coord) -> bool {
    match start {
        GenMode::DiagonalPlateaus => now == GenMode::DiagonalPlateaus,
        GenMode::Switchback(first) => now == GenMode::Switchback(direction_on(first, diagonal_of(c))),
    }
}

/// From wherever a walk has got to, it goes on in its order.
pub proof fn lemma_visits_sorted(w: int, h: int, len: int, start: GenMode, now: GenMode, c: Coord)
    requires
        mode_on(start, now, c),
    ensures
        in_visit_order(start, visits_from(w, h, len, now, c)),
    decreases w + h - 1 - diagonal_of(c), (if crate::walk::x_falls(now) { c.0 } else { c.1 }),
{
    let s = visits_from(w, h, len, now, c);
    if on_walk(w, h, c) {
        let next = walk_step(now, c);
        let rest = visits_from(w, h, len, next.0, next.1);
        lemma_visits_sorted(w, h, len, start, next.0, next.1);
        lemma_visits_ahead(w, h, len, next.0, next.1);
        assert forall|i: int, j: int| 0 <= i < j < s.len() implies visited_before(
            start,
            #[trigger] s[i],
            #[trigger] s[j],
        ) by {
            // `s` is `rest`, after `c` where `c` holds a cell.
        }
    }
}

/// A walk lists the coordinates it comes to in its order.
pub proof fn lemma_visit_order_sorted(w: int, h: int, len: int, mode: GenMode)
    ensures
        in_visit_order(mode, visit_order(w, h, len, mode)),
{
    lemma_visits_sorted(w, h, len, mode, mode, (0, 0));
}

/// Every walk is a bijection onto the grid: over a grid of at least one
/// column and one row, with a cell behind every coordinate, it comes to
/// exactly `w * h` coordinates, to each coordinate of the grid once and to
/// nothing else.
pub proof fn lemma_visit_order_bijection(w: int, h: int, mode: GenMode)
    requires
        1 <= w,
        1 <= h,
    ensures
        visit_order(w, h, w * h, mode).len() == w * h,
        visit_order(w, h, w * h, mode).no_duplicates(),
        forall|c: Coord| in_grid(w, h, c) <==> visit_order(w, h, w * h, mode).contains(c),
{
    let n = w * h;
    let order = visit_order(w, h, n, mode);
    lemma_visits_no_duplicates(w, h, n, mode, (0, 0));
    lemma_visits_ahead(w, h, n, mode, (0, 0));
    assert forall|c: Coord| in_grid(w, h, c) implies order.contains(c) by {
        lemma_linear_index_range(w, h, c);
        lemma_visits_complete(w, h, n, mode, (0, 0), c);
    }
    assert forall|c: Coord| order.contains(c) implies in_grid(w, h, c) by {
        let i = choose|i: int| 0 <= i < order.len() && order[i] == c;
        assert(holds_cell(w, h, n, order[i]));
    }
    // The linear indices of the visits are the numbers below `n`, each once.
    let indices = order.map_values(|c: Coord| linear_index(w, c));
    assert forall|i: int, j: int|
        0 <= i < indices.len() && 0 <= j < indices.len() && i != j implies indices[i] != indices[j] by {
        if indices[i] == indices[j] {
            lemma_linear_index_one_to_one(w, order[i], order[j]);
        }
    }
    assert(0 <= n) by (nonlinear_arith)
        requires
            n == w * h,
            1 <= w,
            1 <= h,
    ;
    let below = vstd::set_lib::set_int_range(0, n);
    assert forall|v: int| indices.to_set().contains(v) <==> below.contains(v) by {
        if indices.to_set().contains(v) {
            let i = choose|i: int| 0 <= i < indices.len() && indices[i] == v;
            lemma_linear_index_range(w, h, order[i]);
        }
        if 0 <= v < n {
            let c: Coord = (v % w, v / w);
            lemma_index_is_of_coord(w, h, v);
            assert(order.contains(c));
            let i = choose|i: int| 0 <= i < order.len() && order[i] == c;
            assert(indices[i] == v);
        }
    }
    assert(indices.to_set() =~= below);
    indices.unique_seq_to_set();
    vstd::set_lib::lemma_int_range(0, n);
}

/// Two lists in the order of one walk with the same members agree on their
/// first `i` places.
proof fn lemma_same_members_agree(mode: GenMode, s: Seq<Coord>, d: Seq<Coord>, i: nat)
    requires
        in_visit_order(mode, s),
        in_visit_order(mode, d),
        forall|c: Coord| s.contains(c) <==> d.contains(c),
        i <= s.len(),
    ensures
        i <= d.len(),
        forall|k: int| 0 <= k < i ==> s[k] == d[k],
    decreases i,
{
    if i > 0 {
        lemma_same_members_agree(mode, s, d, (i - 1) as nat);
        let k = i - 1;
        assert(s.contains(s[k]));
        let m = choose|m: int| 0 <= m < d.len() && d[m] == s[k];
        // `s[k]` stands in `d` at `m`. Were `m` before `k`, `s[k]` would come
        // twice in `s`; were it after `k`, then `d[k]` would come before
        // `s[k]` in `d` and, wherever it stands in `s`, not before it in `s`.
        if m > k {
            assert(d.contains(d[k]));
            let back = choose|back: int| 0 <= back < s.len() && s[back] == d[k];
            assert(visited_before(mode, d[k], d[m]));
        }
    }
}

/// The order of a walk is the only list, in the order of that walk, of the
/// coordinates that hold a cell.
pub proof fn lemma_visit_order_unique(w: int, h: int, len: int, mode: GenMode, s: Seq<Coord>)
    requires
        in_visit_order(mode, s),
        forall|c: Coord| s.contains(c) <==> holds_cell(w, h, len, c),
    ensures
        s == visit_order(w, h, len, mode),
{
    let d = visit_order(w, h, len, mode);
    lemma_visit_order_sorted(w, h, len, mode);
    lemma_visits_ahead(w, h, len, mode, (0, 0));
    assert forall|c: Coord| s.contains(c) <==> d.contains(c) by {
        if holds_cell(w, h, len, c) {
            lemma_visits_complete(w, h, len, mode, (0, 0), c);
        }
        if d.contains(c) {
            let i = choose|i: int| 0 <= i < d.len() && d[i] == c;
            assert(holds_cell(w, h, len, d[i]));
        }
    }
    lemma_same_members_agree(mode, s, d, s.len());
    lemma_same_members_agree(mode, d, s, d.len());
}

/// The drawing order is a bijection onto the grid: exactly `w * h`
/// coordinates, one for each coordinate of the grid, none twice.
pub proof fn lemma_diagonal_order_bijection(w: int, h: int)
    requires
        1 <= w,
        1 <= h,
    ensures
        diagonal_order(w, h, w * h).len() == w * h,
        diagonal_order(w, h, w * h).no_duplicates(),
        forall|c: Coord| in_grid(w, h, c) <==> diagonal_order(w, h, w * h).contains(c),
{
    lemma_visit_order_bijection(w, h, GenMode::DiagonalPlateaus);
}

/// In drawing order the diagonal never falls from one coordinate to the
/// next.
pub proof fn lemma_diagonal_order_monotonic(w: int, h: int, len: int)
    ensures
        forall|i: int|
            0 <= i && i + 1 < diagonal_order(w, h, len).len() ==> diagonal_of(
                #[trigger] diagonal_order(w, h, len)[i],
            ) <= diagonal_of(diagonal_order(w, h, len)[i + 1]),
{
    lemma_visits_diagonals_rise(w, h, len, GenMode::DiagonalPlateaus, (0, 0));
}

/// The drawing order lists its coordinates in drawing order.
pub proof fn lemma_diagonal_order_sorted(w: int, h: int, len: int)
    ensures
        in_drawing_order(diagonal_order(w, h, len)),
{
    lemma_visit_order_sorted(w, h, len, GenMode::DiagonalPlateaus);
}

/// The drawing order is the only list in drawing order of the coordinates
/// that hold a cell.
pub proof fn lemma_diagonal_order_unique(w: int, h: int, len: int, s: Seq<Coord>)
    requires
        in_drawing_order(s),
        forall|c: Coord| s.contains(c) <==> holds_cell(w, h, len, c),
    ensures
        s == diagonal_order(w, h, len),
{
    lemma_visit_order_unique(w, h, len, GenMode::DiagonalPlateaus, s);
}

} // verus!
