use iso_blocks::generate::{fill_unset, generate_grid};
use iso_blocks::grid::{Cell, HZ_BOTTOM};
use iso_blocks::walk::{DiagonalOrder, GenMode};

fn cell(hz: u8, cube_i: u8) -> Cell {
    Cell { hz, cube_i }
}

const FORWARD: GenMode = GenMode::Switchback(DiagonalOrder::Forward);
const REVERSE: GenMode = GenMode::Switchback(DiagonalOrder::Reverse);
const PLATEAUS: GenMode = GenMode::DiagonalPlateaus;

#[test]
fn plateaus_share_a_height_along_each_diagonal() {
    let grid = generate_grid::<3, 2>(PLATEAUS, &[0, 1, 2, 3, 4, 5]);
    assert_eq!(
        grid,
        vec![cell(1, 1), cell(2, 2), cell(3, 4), cell(2, 3), cell(3, 1), cell(4, 2)]
    );
}

#[test]
fn switchback_rises_by_one_with_every_cell() {
    let grid = generate_grid::<3, 2>(FORWARD, &[0, 1, 2, 3, 4, 5]);
    assert_eq!(
        grid,
        vec![cell(1, 1), cell(3, 3), cell(5, 4), cell(3, 2), cell(5, 1), cell(7, 2)]
    );
}

#[test]
fn switchback_without_jitter_is_a_plain_ramp() {
    let grid = generate_grid::<3, 3>(FORWARD, &[0; 9]);
    // (0,0) (0,1) (1,0) (2,0) (1,1) (0,2) (1,2) (2,1) (2,2)
    assert_eq!(
        grid.iter().map(|cell| cell.hz).collect::<Vec<u8>>(),
        vec![1, 3, 4, 2, 5, 8, 6, 7, 9]
    );
    assert!(grid.iter().all(|cell| cell.cube_i == 1));
}

#[test]
fn switchback_can_start_in_reverse() {
    let grid = generate_grid::<3, 3>(REVERSE, &[0; 9]);
    // (0,0) (1,0) (0,1) (0,2) (1,1) (2,0) (2,1) (1,2) (2,2)
    assert_eq!(
        grid.iter().map(|cell| cell.hz).collect::<Vec<u8>>(),
        vec![1, 2, 6, 3, 5, 7, 4, 8, 9]
    );
}

#[test]
fn rolls_pick_one_of_four_skins_by_their_low_bits() {
    let rolls = [4, 5, 6, 7, 0xffff_fffc, 0xffff_fffd, 0xffff_fffe, 0xffff_ffff, 8];
    let grid = generate_grid::<3, 3>(PLATEAUS, &rolls);
    // in walk order: (0,0) (1,0) (0,1) (2,0) (1,1) (0,2) (2,1) (1,2) (2,2)
    assert_eq!(
        grid.iter().map(|cell| cell.cube_i).collect::<Vec<u8>>(),
        vec![1, 2, 4, 3, 1, 3, 2, 4, 1]
    );
    assert_eq!(
        grid.iter().map(|cell| cell.hz).collect::<Vec<u8>>(),
        vec![1, 2, 3, 2, 3, 4, 3, 4, 5]
    );
}

#[test]
fn only_the_lowest_bit_jitters_a_switchback_height() {
    assert_eq!(generate_grid::<1, 1>(FORWARD, &[0]), vec![cell(1, 1)]);
    assert_eq!(generate_grid::<1, 1>(FORWARD, &[1]), vec![cell(2, 2)]);
    assert_eq!(generate_grid::<1, 1>(FORWARD, &[2]), vec![cell(1, 3)]);
    assert_eq!(generate_grid::<1, 1>(FORWARD, &[3]), vec![cell(2, 4)]);
    assert_eq!(generate_grid::<1, 1>(PLATEAUS, &[3]), vec![cell(1, 4)]);
}

#[test]
fn generation_is_deterministic() {
    let rolls: Vec<u32> = (0..256u32).map(|i| i.wrapping_mul(2654435761) >> 7).collect();
    for mode in [FORWARD, REVERSE, PLATEAUS] {
        let first = generate_grid::<16, 16>(mode, &rolls);
        let second = generate_grid::<16, 16>(mode, &rolls);
        assert_eq!(first, second);
        assert_eq!(first.len(), 256);
    }
}

#[test]
fn rolls_beyond_the_grid_do_not_matter() {
    let short = [3, 2, 1, 0];
    let long = [3, 2, 1, 0, 9, 9, 9];
    for mode in [FORWARD, REVERSE, PLATEAUS] {
        assert_eq!(generate_grid::<2, 2>(mode, &short), generate_grid::<2, 2>(mode, &long));
    }
}

#[test]
fn no_cell_is_left_unset() {
    let rolls: Vec<u32> = (0..300u32).collect();
    for mode in [FORWARD, REVERSE, PLATEAUS] {
        assert!(generate_grid::<16, 16>(mode, &rolls).iter().all(|cell| cell.hz != 0));
        assert!(generate_grid::<16, 16>(mode, &rolls[..100]).iter().all(|cell| cell.hz != 0));
        assert!(generate_grid::<16, 16>(mode, &[]).iter().all(|cell| cell.hz != 0));
    }
}

#[test]
fn cells_without_a_roll_end_at_the_bottom() {
    assert_eq!(
        generate_grid::<3, 2>(PLATEAUS, &[0, 1, 2]),
        vec![cell(1, 1), cell(2, 2), cell(HZ_BOTTOM, 0), cell(2, 3), cell(HZ_BOTTOM, 0), cell(HZ_BOTTOM, 0)]
    );
    assert_eq!(
        generate_grid::<3, 2>(FORWARD, &[0, 1]),
        vec![
            cell(1, 1),
            cell(HZ_BOTTOM, 0),
            cell(HZ_BOTTOM, 0),
            cell(3, 2),
            cell(HZ_BOTTOM, 0),
            cell(HZ_BOTTOM, 0),
        ]
    );
    assert_eq!(generate_grid::<2, 2>(PLATEAUS, &[]), vec![cell(HZ_BOTTOM, 0); 4]);
}

#[test]
fn a_grid_without_columns_or_rows_is_empty() {
    assert_eq!(generate_grid::<0, 5>(PLATEAUS, &[1, 2, 3]), vec![]);
    assert_eq!(generate_grid::<5, 0>(FORWARD, &[1, 2, 3]), vec![]);
    assert_eq!(generate_grid::<0, 0>(REVERSE, &[]), vec![]);
}

#[test]
fn heights_stop_at_the_largest_height() {
    let rolls = vec![1u32; 300 * 2];
    let ramp = generate_grid::<255, 2>(FORWARD, &rolls);
    assert_eq!(ramp.len(), 510);
    assert_eq!(ramp.iter().map(|cell| cell.hz).max(), Some(255));
    assert_eq!(ramp[0], cell(2, 2));
    // the last cell of the walk
    assert_eq!(ramp[509], cell(255, 2));
    let terraces = generate_grid::<255, 255>(PLATEAUS, &vec![0u32; 255 * 255]);
    assert_eq!(terraces[0].hz, 1);
    assert_eq!(terraces[253].hz, 254);
    assert_eq!(terraces[254].hz, 255);
    assert_eq!(terraces[255 * 255 - 1].hz, 255);
}

#[test]
fn every_cell_takes_the_roll_of_its_place_on_the_walk() {
    // With rolls 0, 1, 2, 3, 0, 1, ... the skin tells the place on the walk.
    let rolls: Vec<u32> = (0..16u32).collect();
    let grid = generate_grid::<4, 4>(PLATEAUS, &rolls);
    let order = [
        (0, 0), (1, 0), (0, 1), (2, 0), (1, 1), (0, 2), (3, 0), (2, 1),
        (1, 2), (0, 3), (3, 1), (2, 2), (1, 3), (3, 2), (2, 3), (3, 3),
    ];
    for (k, &(x, y)) in order.iter().enumerate() {
        assert_eq!(grid[y * 4 + x], cell(1 + (x + y) as u8, 1 + (k % 4) as u8));
    }
}

#[test]
fn fill_unset_touches_only_unset_heights() {
    let mut grid = vec![cell(0, 3), cell(1, 0), cell(0, 0), cell(200, 7)];
    fill_unset(&mut grid);
    assert_eq!(grid, vec![cell(HZ_BOTTOM, 3), cell(1, 0), cell(HZ_BOTTOM, 0), cell(200, 7)]);
    let mut empty: Vec<Cell> = vec![];
    fill_unset(&mut empty);
    assert_eq!(empty, vec![]);
}
