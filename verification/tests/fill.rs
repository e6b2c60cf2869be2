use iso_blocks::fill::DrawIter;
use iso_blocks::grid::{Cell, GridX, GridY, HZ_BOTTOM};

fn cell(hz: u8, cube_i: u8) -> Cell {
    Cell { hz, cube_i }
}

fn xy<const W: u8, const H: u8>(x: u8, y: u8) -> (GridX<W>, GridY<H>) {
    (GridX::clamped(x), GridY::clamped(y))
}

fn heights<const W: u8, const H: u8>(cells: &[Cell], bottom: u8) -> Vec<(u8, u8, u8, u8)> {
    DrawIter::<W, H>::with_bottom(cells, bottom)
        .collect()
        .into_iter()
        .map(|((x, y), cell)| (x.get(), y.get(), cell.hz, cell.cube_i))
        .collect()
}

#[test]
fn a_cell_of_height_2_gets_seven_fillers_from_bottom_16() {
    let cells = [cell(2, 3)];
    let mut iter = DrawIter::<1, 1>::with_bottom(&cells, 16);
    for hz in [16, 14, 12, 10, 8, 6, 4] {
        assert_eq!(iter.next(), Some((xy(0, 0), cell(hz, 0))));
    }
    assert_eq!(iter.next(), Some((xy(0, 0), cell(2, 3))));
    assert_eq!(iter.next(), None);
}

#[test]
fn the_default_bottom_is_hz_bottom() {
    let cells = [cell(26, 4)];
    let all = DrawIter::<1, 1>::of(&cells).collect();
    assert_eq!(
        all,
        vec![
            (xy(0, 0), cell(HZ_BOTTOM, 0)),
            (xy(0, 0), cell(30, 0)),
            (xy(0, 0), cell(28, 0)),
            (xy(0, 0), cell(26, 4)),
        ]
    );
    assert_eq!(DrawIter::<1, 1>::with_bottom(&cells, HZ_BOTTOM).collect(), all);
}

#[test]
fn a_cell_at_or_above_the_bottom_gets_no_filler() {
    assert_eq!(heights::<1, 1>(&[cell(16, 1)], 16), vec![(0, 0, 16, 1)]);
    assert_eq!(heights::<1, 1>(&[cell(17, 1)], 16), vec![(0, 0, 17, 1)]);
    assert_eq!(heights::<1, 1>(&[cell(255, 2)], 16), vec![(0, 0, 255, 2)]);
    assert_eq!(heights::<1, 1>(&[cell(0, 2)], 0), vec![(0, 0, 0, 2)]);
}

#[test]
fn fillers_stop_once_they_reach_the_cell() {
    // One above: a single filler. Two above: the filler at 16; 14 is not above.
    assert_eq!(heights::<1, 1>(&[cell(15, 1)], 16), vec![(0, 0, 16, 0), (0, 0, 15, 1)]);
    assert_eq!(heights::<1, 1>(&[cell(14, 1)], 16), vec![(0, 0, 16, 0), (0, 0, 14, 1)]);
    assert_eq!(
        heights::<1, 1>(&[cell(13, 1)], 16),
        vec![(0, 0, 16, 0), (0, 0, 14, 0), (0, 0, 13, 1)]
    );
}

#[test]
fn an_odd_bottom_still_ends() {
    assert_eq!(
        heights::<1, 1>(&[cell(0, 5)], 5),
        vec![(0, 0, 5, 0), (0, 0, 3, 0), (0, 0, 1, 0), (0, 0, 0, 5)]
    );
    assert_eq!(heights::<1, 1>(&[cell(0, 5)], 1), vec![(0, 0, 1, 0), (0, 0, 0, 5)]);
    assert_eq!(
        heights::<1, 1>(&[cell(2, 5)], 7),
        vec![(0, 0, 7, 0), (0, 0, 5, 0), (0, 0, 3, 0), (0, 0, 2, 5)]
    );
}

#[test]
fn the_fill_height_starts_over_for_every_cell() {
    let cells = [cell(2, 1), cell(4, 2), cell(9, 3), cell(0, 4)];
    assert_eq!(
        heights::<2, 2>(&cells, 6),
        vec![
            (0, 0, 6, 0),
            (0, 0, 4, 0),
            (0, 0, 2, 1),
            (1, 0, 6, 0),
            (1, 0, 4, 2),
            (0, 1, 9, 3),
            (1, 1, 6, 0),
            (1, 1, 4, 0),
            (1, 1, 2, 0),
            (1, 1, 0, 4),
        ]
    );
}

#[test]
fn the_tallest_stack_counts_down_from_255() {
    let all = heights::<1, 1>(&[cell(0, 1)], 255);
    assert_eq!(all.len(), 129);
    assert_eq!(all[0], (0, 0, 255, 0));
    assert_eq!(all[1], (0, 0, 253, 0));
    assert_eq!(all[127], (0, 0, 1, 0));
    assert_eq!(all[128], (0, 0, 0, 1));
}

#[test]
fn draw_iter_is_empty_without_cells() {
    assert_eq!(DrawIter::<3, 2>::of(&[]).next(), None);
    assert_eq!(DrawIter::<0, 2>::of(&[cell(1, 1)]).next(), None);
    let cells = [cell(9, 1)];
    let mut iter = DrawIter::<1, 1>::with_bottom(&cells, 0);
    assert_eq!(iter.next(), Some((xy(0, 0), cell(9, 1))));
    assert_eq!(iter.next(), None);
    assert_eq!(iter.next(), None);
}

#[test]
fn draw_iter_counts_cells_and_fillers() {
    // Every cell of height 0 under a bottom of 32 has 16 fillers.
    let cells = vec![cell(0, 1); 256];
    let all = DrawIter::<16, 16>::of(&cells).collect();
    assert_eq!(all.len(), 256 * 17);
}
