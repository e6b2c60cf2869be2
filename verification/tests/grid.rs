use iso_blocks::grid::{
    grid_i_to_xy, grid_xy_inner_to_i, grid_xy_to_i, Cell, GridX, GridY, HZ_BOTTOM,
};

const GRID_W: u8 = 16;
const GRID_H: u8 = 16;

fn to_i(xy: (u8, u8)) -> usize {
    let (x, y) = xy;
    grid_xy_to_i::<GRID_W, GRID_H>((GridX::clamped(x), GridY::clamped(y)))
}

#[test]
fn grid_xy_to_i_to_xy_is_identity_on_these_examples() {
    assert!(GRID_W >= 3);
    assert!(GRID_H >= 2);
    assert_eq!(grid_i_to_xy::<GRID_W>(to_i((0, 0))), (0, 0));
    assert_eq!(grid_i_to_xy::<GRID_W>(to_i((1, 0))), (1, 0));
    assert_eq!(grid_i_to_xy::<GRID_W>(to_i((0, 2))), (0, 2));
    assert_eq!(grid_i_to_xy::<GRID_W>(to_i((2, 2))), (2, 2));
}

#[test]
fn grid_i_to_xy_to_i_is_identity_on_these_examples() {
    assert_eq!(to_i(grid_i_to_xy::<GRID_W>(0)), 0);
    assert_eq!(to_i(grid_i_to_xy::<GRID_W>(2)), 2);
    assert_eq!(to_i(grid_i_to_xy::<GRID_W>(3 * GRID_W as usize)), 3 * GRID_W as usize);
    assert_eq!(to_i(grid_i_to_xy::<GRID_W>(4 * GRID_W as usize + 4)), 4 * GRID_W as usize + 4);
}

#[test]
fn grid_xy_inner_to_i_is_row_major() {
    assert_eq!(grid_xy_inner_to_i::<16>((0, 0)), 0);
    assert_eq!(grid_xy_inner_to_i::<16>((5, 0)), 5);
    assert_eq!(grid_xy_inner_to_i::<16>((0, 1)), 16);
    assert_eq!(grid_xy_inner_to_i::<16>((15, 15)), 255);
    assert_eq!(grid_xy_inner_to_i::<3>((2, 1)), 5);
    assert_eq!(grid_xy_inner_to_i::<255>((254, 254)), 254 * 255 + 254);
    assert_eq!(grid_xy_inner_to_i::<0>((7, 9)), 7);
}

#[test]
fn grid_xy_to_i_matches_the_inner_mapping() {
    assert_eq!(grid_xy_to_i::<3, 2>((GridX::clamped(2), GridY::clamped(1))), 5);
    assert_eq!(grid_xy_to_i::<3, 2>((GridX::clamped(9), GridY::clamped(9))), 5);
    assert_eq!(grid_xy_to_i::<255, 255>((GridX::clamped(254), GridY::clamped(254))), 65024);
}

#[test]
fn grid_i_to_xy_reaches_indexes_beyond_one_byte() {
    assert_eq!(grid_i_to_xy::<255>(65024), (254, 254));
    assert_eq!(grid_i_to_xy::<255>(256), (1, 1));
    assert_eq!(grid_i_to_xy::<3>(5), (2, 1));
    assert_eq!(grid_i_to_xy::<1>(200), (0, 200));
}

#[test]
fn grid_i_to_xy_and_back_is_identity_on_every_index() {
    for i in 0..(200usize * 200) {
        assert_eq!(grid_xy_inner_to_i::<200>(grid_i_to_xy::<200>(i)), i);
    }
}

#[test]
fn clamped_keeps_coordinates_on_the_axis() {
    assert_eq!(GridX::<16>::clamped(0).get(), 0);
    assert_eq!(GridX::<16>::clamped(7).get(), 7);
    assert_eq!(GridX::<16>::clamped(15).get(), 15);
    assert_eq!(GridX::<16>::clamped(16).get(), 15);
    assert_eq!(GridX::<16>::clamped(255).get(), 15);
    assert_eq!(GridY::<2>::clamped(0).get(), 0);
    assert_eq!(GridY::<2>::clamped(1).get(), 1);
    assert_eq!(GridY::<2>::clamped(2).get(), 1);
    assert_eq!(GridX::<255>::clamped(255).get(), 254);
}

#[test]
fn clamped_is_zero_on_an_axis_of_one_or_none() {
    assert_eq!(GridX::<1>::clamped(9).get(), 0);
    assert_eq!(GridX::<0>::clamped(9).get(), 0);
    assert_eq!(GridY::<1>::clamped(0).get(), 0);
    assert_eq!(GridY::<0>::clamped(255).get(), 0);
}

#[test]
fn saturating_moves_stop_at_both_ends() {
    let x = GridX::<16>::clamped(1);
    assert_eq!(x.saturating_sub(1).get(), 0);
    assert_eq!(x.saturating_sub(2).get(), 0);
    assert_eq!(x.saturating_sub(255).get(), 0);
    assert_eq!(x.saturating_add(1).get(), 2);
    assert_eq!(x.saturating_add(14).get(), 15);
    assert_eq!(x.saturating_add(15).get(), 15);
    assert_eq!(x.saturating_add(255).get(), 15);
    let y = GridY::<3>::clamped(2);
    assert_eq!(y.saturating_add(1).get(), 2);
    assert_eq!(y.saturating_sub(1).get(), 1);
    assert_eq!(y.saturating_sub(3).get(), 0);
    assert_eq!(y.saturating_add(0).get(), 2);
}

#[test]
fn coordinates_compare_by_their_position() {
    assert!(GridX::<16>::clamped(3) < GridX::<16>::clamped(4));
    assert!(GridY::<16>::clamped(9) > GridY::<16>::clamped(4));
    assert_eq!(GridX::<16>::clamped(200), GridX::<16>::clamped(15));
    assert_eq!(GridX::<16>::default().get(), 0);
    assert_eq!(GridY::<16>::default().get(), 0);
}

#[test]
fn default_cell_is_unset() {
    assert_eq!(Cell::default(), Cell { hz: 0, cube_i: 0 });
    assert_eq!(HZ_BOTTOM, 32);
}
