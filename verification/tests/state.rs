use iso_blocks::grid::{Cell, GridX, GridY};
use iso_blocks::player::{MoveMode, SubFace};
use iso_blocks::state::{Button, State};
use iso_blocks::walk::{DiagonalOrder, GenMode};

const START: [u8; 16] = [0, 0, 2, 2, 0, 0, 0, 0, 0, 0, 0, 0, 0, 0, 1, 0];

fn fresh() -> State<16, 16> {
    State::new(GenMode::DiagonalPlateaus, &[0; 256])
}

fn in_mode(mode: u8) -> State<16, 16> {
    let mut state = fresh();
    state.debug[14] = mode;
    state
}

fn place(state: &State<16, 16>) -> (u8, u8) {
    (state.player.x.get(), state.player.y.get())
}

#[test]
fn a_fresh_state_has_a_generated_grid_and_fixed_settings() {
    let state = State::<3, 2>::new(GenMode::Switchback(DiagonalOrder::Forward), &[0, 1, 2, 3, 4, 5]);
    assert_eq!(
        state.grid,
        vec![
            Cell { hz: 1, cube_i: 1 },
            Cell { hz: 3, cube_i: 3 },
            Cell { hz: 5, cube_i: 4 },
            Cell { hz: 3, cube_i: 2 },
            Cell { hz: 5, cube_i: 1 },
            Cell { hz: 7, cube_i: 2 },
        ]
    );
    assert_eq!(state.camera_x, 3);
    assert_eq!(state.camera_y, 1);
    assert_eq!(state.debug, START);
    assert_eq!(state.move_mode, MoveMode::A);
    assert_eq!(state.player.sub_face, SubFace::LeftBottom);
    assert_eq!((state.player.x.get(), state.player.y.get()), (0, 0));
}

#[test]
fn player_cell_is_the_cell_under_the_player() {
    let mut state = State::<3, 2>::new(GenMode::DiagonalPlateaus, &[0, 1, 2, 3, 4, 5]);
    assert_eq!(state.player_cell(), Cell { hz: 1, cube_i: 1 });
    state.player.x = GridX::clamped(2);
    assert_eq!(state.player_cell(), Cell { hz: 3, cube_i: 4 });
    state.player.y = GridY::clamped(1);
    assert_eq!(state.player_cell(), Cell { hz: 4, cube_i: 2 });
    state.player.x = GridX::clamped(0);
    assert_eq!(state.player_cell(), Cell { hz: 2, cube_i: 3 });
}

#[test]
fn start_and_select_step_the_mode_byte() {
    let mut state = fresh();
    assert_eq!(state.debug[14], 1);
    state.update(Some(Button::Select));
    assert_eq!(state.debug[14], 2);
    state.update(Some(Button::Start));
    state.update(Some(Button::Start));
    assert_eq!(state.debug[14], 0);
    state.update(Some(Button::Start));
    assert_eq!(state.debug[14], 255);
    state.update(Some(Button::Select));
    assert_eq!(state.debug[14], 0);
    let mut expected = START;
    expected[14] = 0;
    assert_eq!(state.debug, expected);
    assert_eq!((state.camera_x, state.camera_y), (3, 1));
    assert_eq!(place(&state), (0, 0));
}

#[test]
fn no_button_changes_nothing() {
    for mode in [0, 1, 2, 3, 200] {
        let mut state = in_mode(mode);
        let grid = state.grid.clone();
        state.update(None);
        let mut expected = START;
        expected[14] = mode;
        assert_eq!(state.debug, expected);
        assert_eq!((state.camera_x, state.camera_y), (3, 1));
        assert_eq!(place(&state), (0, 0));
        assert_eq!(state.player.sub_face, SubFace::LeftBottom);
        assert_eq!(state.grid, grid);
    }
}

#[test]
fn in_player_mode_the_directions_move_the_player() {
    let mut state = in_mode(2);
    state.update(Some(Button::Down));
    assert_eq!(place(&state), (1, 0));
    state.update(Some(Button::Right));
    assert_eq!(place(&state), (1, 1));
    state.update(Some(Button::Up));
    assert_eq!(place(&state), (0, 1));
    state.update(Some(Button::Up));
    assert_eq!(place(&state), (0, 1));
    state.update(Some(Button::Left));
    assert_eq!(place(&state), (0, 0));
    state.update(Some(Button::Left));
    assert_eq!(place(&state), (0, 0));
    for _ in 0..20 {
        state.update(Some(Button::Down));
        state.update(Some(Button::Right));
    }
    assert_eq!(place(&state), (15, 15));
    assert_eq!(state.debug[14], 2);
    assert_eq!((state.camera_x, state.camera_y), (3, 1));
}

#[test]
fn the_other_move_mode_swaps_the_axes() {
    let mut state = in_mode(2);
    state.move_mode = MoveMode::B;
    state.update(Some(Button::Down));
    assert_eq!(place(&state), (0, 1));
    state.update(Some(Button::Left));
    assert_eq!(place(&state), (1, 1));
    state.update(Some(Button::Up));
    assert_eq!(place(&state), (1, 0));
    state.update(Some(Button::Right));
    assert_eq!(place(&state), (0, 0));
    state.update(Some(Button::Right));
    state.update(Some(Button::Up));
    assert_eq!(place(&state), (0, 0));
    assert_eq!(state.move_mode, MoveMode::B);
}

#[test]
fn in_player_mode_a_and_b_turn_the_sub_face() {
    let mut state = in_mode(2);
    state.update(Some(Button::B));
    assert_eq!(state.player.sub_face, SubFace::LeftMiddle);
    state.update(Some(Button::A));
    state.update(Some(Button::A));
    assert_eq!(state.player.sub_face, SubFace::TopBackslashTop);
    assert_eq!(place(&state), (0, 0));
    assert_eq!(state.debug[15], 0);
}

#[test]
fn select_into_player_mode_acts_in_the_same_frame() {
    // From mode 1, Select leads to mode 2; nothing else reacts to Select.
    let mut state = fresh();
    state.update(Some(Button::Select));
    assert_eq!(state.debug[14], 2);
    assert_eq!(place(&state), (0, 0));
    assert_eq!((state.camera_x, state.camera_y), (3, 1));
}

#[test]
fn in_camera_mode_the_directions_move_the_camera_by_one_cell() {
    let mut state = fresh();
    state.update(Some(Button::Up));
    assert_eq!((state.camera_x, state.camera_y), (3, -31));
    state.update(Some(Button::Down));
    state.update(Some(Button::Down));
    assert_eq!((state.camera_x, state.camera_y), (3, 33));
    state.update(Some(Button::Left));
    assert_eq!((state.camera_x, state.camera_y), (-52, 33));
    state.update(Some(Button::Right));
    state.update(Some(Button::Right));
    assert_eq!((state.camera_x, state.camera_y), (58, 33));
    state.update(Some(Button::A));
    state.update(Some(Button::B));
    assert_eq!((state.camera_x, state.camera_y), (58, 33));
    assert_eq!(place(&state), (0, 0));
    assert_eq!(state.debug, START);
}

#[test]
fn the_camera_wraps_round() {
    let mut state = fresh();
    state.camera_x = 32767;
    state.camera_y = -32768;
    state.update(Some(Button::Right));
    assert_eq!(state.camera_x, -32768 + 54);
    state.update(Some(Button::Up));
    assert_eq!(state.camera_y, 32767 - 31);
    state.update(Some(Button::Left));
    assert_eq!(state.camera_x, 32767);
    state.update(Some(Button::Down));
    assert_eq!(state.camera_y, -32768);
}

#[test]
fn in_the_other_modes_the_buttons_edit_the_debug_bytes() {
    let mut state = in_mode(0);
    let mut expected = START;
    expected[14] = 0;
    state.update(Some(Button::Up));
    expected[0] = 1;
    assert_eq!(state.debug, expected);
    state.update(Some(Button::Left));
    expected[0] = 249;
    assert_eq!(state.debug, expected);
    state.update(Some(Button::Right));
    state.update(Some(Button::Right));
    expected[0] = 9;
    assert_eq!(state.debug, expected);
    state.update(Some(Button::Down));
    expected[0] = 8;
    assert_eq!(state.debug, expected);
    state.update(Some(Button::B));
    state.update(Some(Button::B));
    expected[15] = 2;
    assert_eq!(state.debug, expected);
    state.update(Some(Button::Down));
    expected[2] = 1;
    assert_eq!(state.debug, expected);
    state.update(Some(Button::A));
    state.update(Some(Button::A));
    state.update(Some(Button::A));
    expected[15] = 255;
    assert_eq!(state.debug, expected);
    // No byte is selected: the directions do nothing.
    state.update(Some(Button::Up));
    state.update(Some(Button::Down));
    state.update(Some(Button::Left));
    state.update(Some(Button::Right));
    assert_eq!(state.debug, expected);
    assert_eq!((state.camera_x, state.camera_y), (3, 1));
    assert_eq!(place(&state), (0, 0));
}

#[test]
fn editing_the_byte_that_selects_acts_on_itself() {
    let mut state = in_mode(7);
    state.debug[15] = 15;
    state.update(Some(Button::Right));
    assert_eq!(state.debug[15], 23);
    state.update(Some(Button::Up));
    assert_eq!(state.debug[15], 23);
    state.debug[15] = 14;
    state.update(Some(Button::Left));
    assert_eq!(state.debug[14], 255);
    state.update(Some(Button::Up));
    assert_eq!(state.debug[14], 0);
}
