//! The state of the block world: the grid, the camera and the player piece.

use vstd::prelude::*;
use crate::generate::{generate_grid, generated};
use crate::grid::{clamp_to_axis, grid_xy_to_i, Cell, HZ_UNSET};
use crate::player::{MoveMode, Player, SubFace, SUB_FACE_COUNT};
use crate::project::{X_SCALE, Y_SCALE};
use crate::walk::GenMode;

verus! {

/// The horizontal offset of the camera, in pixels.
pub type CameraX = i16;

/// The vertical offset of the camera, in pixels.
pub type CameraY = i16;

/// The row-major cells of a grid.
pub type Grid = Vec<Cell>;

/// Where the camera stands in a fresh state.
pub const CAMERA_X_START: CameraX = 3;

/// Where the camera stands in a fresh state.
pub const CAMERA_Y_START: CameraY = 1;

/// The number of debug bytes.
pub const DEBUG_LEN: usize = 16;

/// The debug byte that holds the column at which the inspected part of the
/// grid ends.
pub const DEBUG_GRID_X_END: usize = 2;

/// The debug byte that holds the row at which the inspected part of the
/// grid ends.
pub const DEBUG_GRID_Y_END: usize = 3;

/// The debug byte that selects what the buttons act on.
pub const DEBUG_MODE: usize = 14;

/// The debug byte that selects the debug byte to edit.
pub const DEBUG_I: usize = 15;

/// The debug bytes of a fresh state.
pub open spec fn debug_start() -> Seq<u8> {
    seq![0u8, 0u8, 2u8, 2u8, 0u8, 0u8, 0u8, 0u8, 0u8, 0u8, 0u8, 0u8, 0u8, 0u8, 1u8, 0u8]
}

/// A button of the game pad.
#[derive(Clone, Copy, Debug, PartialEq, Eq, Structural)]
pub enum Button {
    A,
    B,
    Select,
    Start,
    Up,
    Down,
    Left,
    Right,
}

/// The value of the mode byte at which the buttons move the player piece.
pub const MODE_PLAYER: u8 = 2;

/// The value of the mode byte at which the buttons move the camera.
pub const MODE_CAMERA: u8 = 1;

/// How far a direction button moves a debug byte to the left or right.
pub const DEBUG_STRIDE: u8 = 8;

/// The mode byte after a button: Start steps it down, Select up, both
/// wrapping round.
pub open spec fn mode_after(mode: u8, pressed: Option<Button>) -> u8 {
    match pressed {
        Some(Button::Start) => vstd::wrapping::u8_specs::wrapping_sub(mode, 1),
        Some(Button::Select) => vstd::wrapping::u8_specs::wrapping_add(mode, 1),
        _ => mode,
    }
}

/// By how much a button moves the column of the player piece.
pub open spec fn column_step(move_mode: MoveMode, pressed: Option<Button>) -> int {
    match (move_mode, pressed) {
        (MoveMode::A, Some(Button::Up)) => -1,
        (MoveMode::A, Some(Button::Down)) => 1,
        (MoveMode::B, Some(Button::Left)) => 1,
        (MoveMode::B, Some(Button::Right)) => -1,
        _ => 0,
    }
}

/// By how much a button moves the row of the player piece.
pub open spec fn row_step(move_mode: MoveMode, pressed: Option<Button>) -> int {
    match (move_mode, pressed) {
        (MoveMode::A, Some(Button::Left)) => -1,
        (MoveMode::A, Some(Button::Right)) => 1,
        (MoveMode::B, Some(Button::Up)) => -1,
        (MoveMode::B, Some(Button::Down)) => 1,
        _ => 0,
    }
}

/// By how many places a button turns the sub-face of the player piece on.
pub open spec fn sub_face_step(pressed: Option<Button>) -> int {
    match pressed {
        Some(Button::A) => SUB_FACE_COUNT - 1,
        Some(Button::B) => 1,
        _ => 0,
    }
}

/// The camera after a button that moves it: one cell up, down, left or
/// right, wrapping round.
pub open spec fn camera_after(camera: (CameraX, CameraY), pressed: Option<Button>) -> (
    CameraX,
    CameraY,
) {
    match pressed {
        Some(Button::Up) => (camera.0, vstd::wrapping::i16_specs::wrapping_sub(camera.1, Y_SCALE)),
        Some(Button::Down) => (camera.0, vstd::wrapping::i16_specs::wrapping_add(camera.1, Y_SCALE)),
        Some(Button::Left) => (vstd::wrapping::i16_specs::wrapping_sub(camera.0, X_SCALE), camera.1),
        Some(Button::Right) => (vstd::wrapping::i16_specs::wrapping_add(camera.0, X_SCALE), camera.1),
        _ => camera,
    }
}

/// The debug bytes after a button that edits them. A and B step the byte
/// that selects, the direction buttons step the selected byte if there is
/// one; all wrap round.
pub open spec fn debug_after(debug: Seq<u8>, pressed: Option<Button>) -> Seq<u8> {
    let i = debug[DEBUG_I as int];
    match pressed {
        Some(Button::A) => debug.update(DEBUG_I as int, vstd::wrapping::u8_specs::wrapping_sub(i, 1)),
        Some(Button::B) => debug.update(DEBUG_I as int, vstd::wrapping::u8_specs::wrapping_add(i, 1)),
        Some(Button::Up) if i < DEBUG_LEN => debug.update(
            i as int,
            vstd::wrapping::u8_specs::wrapping_add(debug[i as int], 1),
        ),
        Some(Button::Down) if i < DEBUG_LEN => debug.update(
            i as int,
            vstd::wrapping::u8_specs::wrapping_sub(debug[i as int], 1),
        ),
        Some(Button::Right) if i < DEBUG_LEN => debug.update(
            i as int,
            vstd::wrapping::u8_specs::wrapping_add(debug[i as int], DEBUG_STRIDE),
        ),
        Some(Button::Left) if i < DEBUG_LEN => debug.update(
            i as int,
            vstd::wrapping::u8_specs::wrapping_sub(debug[i as int], DEBUG_STRIDE),
        ),
        _ => debug,
    }
}

/// A world of `W` by `H` blocks.
pub struct State<const W: u8, const H: u8> {
    pub camera_x: CameraX,
    pub camera_y: CameraY,
    pub grid: Grid,
    pub player: Player<W, H>,
    pub move_mode: MoveMode,
    pub debug: [u8; DEBUG_LEN],
}

impl<const W: u8, const H: u8> State<W, H> {
    /// The grid holds one cell for every coordinate.
    pub open spec fn wf(self) -> bool {
        self.grid@.len() == W as int * H as int
    }

    /// A fresh world. Its grid is generated by a walk in `mode` that takes
    /// one of `rolls` for every cell.
    pub fn new(mode: GenMode, rolls: &[u32]) -> (state: Self)
        ensures
            state.wf(),
            state.grid@ == generated(W as int, H as int, mode, rolls@),
            forall|i: int| 0 <= i < state.grid@.len() ==> (#[trigger] state.grid@[i]).hz != HZ_UNSET,
            state.camera_x == CAMERA_X_START,
            state.camera_y == CAMERA_Y_START,
            state.player.x@ == 0,
            state.player.y@ == 0,
            state.player.sub_face == SubFace::LeftBottom,
            state.move_mode == MoveMode::A,
            state.debug@ == debug_start(),
    {
        let mut debug: [u8; DEBUG_LEN] = [0, 0, 0, 0, 0, 0, 0, 0, 0, 0, 0, 0, 0, 0, 0, 0];
        debug[DEBUG_GRID_X_END] = 2;
        debug[DEBUG_GRID_Y_END] = 2;
        debug[DEBUG_MODE] = MODE_CAMERA;

        let grid = generate_grid::<W, H>(mode, rolls);

        State {
            debug,
            grid,
            camera_x: CAMERA_X_START,
            camera_y: CAMERA_Y_START,
            player: Player::default(),
            move_mode: MoveMode::default(),
        }
    }

    /// The mode byte once `pressed` has acted on it.
    pub open spec fn mode_next(self, pressed: Option<Button>) -> u8 {
        mode_after(self.debug@[DEBUG_MODE as int], pressed)
    }

    /// Lets the button pressed in this frame, if any, act on the world.
    /// Start and Select step the mode byte. The other buttons then act on
    /// what the mode byte selects: the player piece, the camera, or the
    /// debug bytes. The grid stays as it is.
    pub fn update(&mut self, pressed: Option<Button>)
        ensures
            final(self).grid == old(self).grid,
            final(self).move_mode == old(self).move_mode,
            final(self).debug@ == (if old(self).mode_next(pressed) == MODE_PLAYER || old(self).mode_next(
                pressed,
            ) == MODE_CAMERA {
                old(self).debug@.update(DEBUG_MODE as int, old(self).mode_next(pressed))
            } else {
                debug_after(old(self).debug@.update(DEBUG_MODE as int, old(self).mode_next(pressed)), pressed)
            }),
            (final(self).camera_x, final(self).camera_y) == (if old(self).mode_next(pressed)
                == MODE_CAMERA {
                camera_after((old(self).camera_x, old(self).camera_y), pressed)
            } else {
                (old(self).camera_x, old(self).camera_y)
            }),
            old(self).mode_next(pressed) != MODE_PLAYER ==> final(self).player == old(self).player,
            old(self).mode_next(pressed) == MODE_PLAYER ==> {
                &&& final(self).player.sub_face.ordinal() == (old(self).player.sub_face.ordinal()
                    + sub_face_step(pressed)) % (SUB_FACE_COUNT as int)
                &&& final(self).player.x@ == clamp_to_axis(
                    W as int,
                    old(self).player.x@ + column_step(old(self).move_mode, pressed),
                )
                &&& final(self).player.y@ == clamp_to_axis(
                    H as int,
                    old(self).player.y@ + row_step(old(self).move_mode, pressed),
                )
            },
    {
        match pressed {
            Some(Button::Start) => {
                self.debug[DEBUG_MODE] = self.debug[DEBUG_MODE].wrapping_sub(1);
            },
            Some(Button::Select) => {
                self.debug[DEBUG_MODE] = self.debug[DEBUG_MODE].wrapping_add(1);
            },
            _ => {},
        }

        let mode = self.debug[DEBUG_MODE];
        if mode == MODE_PLAYER {
            let move_mode = self.move_mode;
            let x = self.player.x;
            let y = self.player.y;
            // A coordinate lies on its axis, so a step of nothing leaves it
            // where it is.
            let _ = (x.get(), y.get());
            match (pressed, move_mode) {
                (Some(Button::A), _) => {
                    self.player.sub_face = self.player.sub_face.wrapping_sub_1();
                },
                (Some(Button::B), _) => {
                    self.player.sub_face = self.player.sub_face.wrapping_add_1();
                },
                (Some(Button::Up), MoveMode::B) => {
                    self.player.y = y.saturating_sub(1);
                },
                (Some(Button::Down), MoveMode::B) => {
                    self.player.y = y.saturating_add(1);
                },
                (Some(Button::Left), MoveMode::B) => {
                    self.player.x = x.saturating_add(1);
                },
                (Some(Button::Right), MoveMode::B) => {
                    self.player.x = x.saturating_sub(1);
                },
                (Some(Button::Up), MoveMode::A) => {
                    self.player.x = x.saturating_sub(1);
                },
                (Some(Button::Down), MoveMode::A) => {
                    self.player.x = x.saturating_add(1);
                },
                (Some(Button::Left), MoveMode::A) => {
                    self.player.y = y.saturating_sub(1);
                },
                (Some(Button::Right), MoveMode::A) => {
                    self.player.y = y.saturating_add(1);
                },
                _ => {},
            }
        } else if mode == MODE_CAMERA {
            match pressed {
                Some(Button::Up) => {
                    self.camera_y = self.camera_y.wrapping_sub(Y_SCALE);
                },
                Some(Button::Down) => {
                    self.camera_y = self.camera_y.wrapping_add(Y_SCALE);
                },
                Some(Button::Left) => {
                    self.camera_x = self.camera_x.wrapping_sub(X_SCALE);
                },
                Some(Button::Right) => {
                    self.camera_x = self.camera_x.wrapping_add(X_SCALE);
                },
                _ => {},
            }
        } else {
            let i = self.debug[DEBUG_I] as usize;
            match pressed {
                Some(Button::A) => {
                    self.debug[DEBUG_I] = self.debug[DEBUG_I].wrapping_sub(1);
                },
                Some(Button::B) => {
                    self.debug[DEBUG_I] = self.debug[DEBUG_I].wrapping_add(1);
                },
                Some(Button::Up) => {
                    if i < DEBUG_LEN {
                        self.debug[i] = self.debug[i].wrapping_add(1);
                    }
                },
                Some(Button::Down) => {
                    if i < DEBUG_LEN {
                        self.debug[i] = self.debug[i].wrapping_sub(1);
                    }
                },
                Some(Button::Right) => {
                    if i < DEBUG_LEN {
                        self.debug[i] = self.debug[i].wrapping_add(DEBUG_STRIDE);
                    }
                },
                Some(Button::Left) => {
                    if i < DEBUG_LEN {
                        self.debug[i] = self.debug[i].wrapping_sub(DEBUG_STRIDE);
                    }
                },
                _ => {},
            }
        }
    }

    /// The cell that the player piece stands on.
    pub fn player_cell(&self) -> (cell: Cell)
        requires
            self.wf(),
            W >= 1,
            H >= 1,
        ensures
            cell == self.grid@[self.player.y@ * W as int + self.player.x@],
    {
        let x = self.player.x;
        let y = self.player.y;
        let i = grid_xy_to_i::<W, H>((x, y));
        self.grid[i]
    }
}

} // verus!
