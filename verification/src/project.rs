//! The isometric projector, and the frame it makes of a world: where on the
//! screen each block of the under-filled drawing order goes.

use vstd::prelude::*;
use crate::fill::{drawn_for, lemma_under_fill_members, under_fill, DrawIter};
use crate::grid::{axis_max, Cell, CubeIndex, GridX, GridY, HZ, HZ_BOTTOM};
use crate::layer::{cell_at, layer_order};
use crate::player::SubFace;
use crate::state::{CameraX, CameraY, State};
use crate::order::drawn_before;
use crate::walk::{in_grid, lemma_visits_ahead, Coord, GenMode};

verus! {

/// The width of a block sprite, in pixels.
pub const CUBE_W: i16 = 111;

/// The height of a block sprite, in pixels.
pub const CUBE_H: i16 = 128;

/// The horizontal distance on the screen between two neighbouring cells:
/// half the width of a block.
pub const X_SCALE: i16 = 55;

/// The vertical distance on the screen between two neighbouring cells, and
/// between two heights one half-height unit apart: a quarter of the height
/// of a block.
pub const Y_SCALE: i16 = 32;

/// The number of block skins on the sprite sheet.
pub const CUBE_SKINS: CubeIndex = 6;

/// The sprite sheet column of the first block skin, in pixels.
pub const CUBE_BASE_X: u16 = 128;

/// The distance between two columns of block skins, in pixels.
pub const CUBE_X_ADV: u16 = 112;

/// The sprite sheet row of the first block skin, in pixels.
pub const CUBE_BASE_Y: u16 = 0;

/// The distance between two rows of block skins, in pixels.
pub const CUBE_Y_ADV: u16 = 128;

/// The number of block skins in one row of the sprite sheet.
pub const CUBE_SKINS_PER_ROW: u16 = 3;

/// A rectangle of the screen, in pixels.
#[derive(Clone, Copy, Debug, PartialEq, Eq, Structural)]
pub struct Rect {
    pub x: i16,
    pub y: i16,
    pub w: i16,
    pub h: i16,
}

/// What a draw call draws.
#[derive(Clone, Copy, Debug, PartialEq, Eq, Structural)]
pub enum Sprite {
    /// A block with the given skin.
    Cube(CubeIndex),
    /// The player piece on the given sub-face.
    Player(SubFace),
}

/// One sprite at one place of the screen.
#[derive(Clone, Copy, Debug, PartialEq, Eq, Structural)]
pub struct DrawCall {
    pub sprite: Sprite,
    pub rect: Rect,
}

/// The isometric position of a block of height `hz` at `c`, before scaling.
pub open spec fn iso_of(c: Coord, hz: int) -> (int, int) {
    (c.1 - c.0, c.1 + c.0 + hz)
}

/// The screen position of a block of height `hz` at `c` under a camera at
/// `camera`.
pub open spec fn screen_of(c: Coord, hz: int, camera: (int, int)) -> (int, int) {
    (iso_of(c, hz).0 * X_SCALE + camera.0, iso_of(c, hz).1 * Y_SCALE + camera.1)
}

/// Whether that screen position can be held in screen coordinates.
pub open spec fn fits_screen(c: Coord, hz: int, camera: (int, int)) -> bool {
    &&& i16::MIN <= screen_of(c, hz, camera).0 <= i16::MAX
    &&& i16::MIN <= screen_of(c, hz, camera).1 <= i16::MAX
}

/// The rectangle that a block of height `hz` at `c` covers on the screen.
pub open spec fn rect_of(c: Coord, hz: int, camera: (int, int)) -> Rect {
    Rect {
        x: screen_of(c, hz, camera).0 as i16,
        y: screen_of(c, hz, camera).1 as i16,
        w: CUBE_W,
        h: CUBE_H,
    }
}

/// The draw call for one pair of the drawing order.
pub open spec fn cube_call(item: (Coord, Cell), camera: (int, int)) -> DrawCall {
    DrawCall { sprite: Sprite::Cube(item.1.cube_i), rect: rect_of(item.0, item.1.hz as int, camera) }
}

impl<const W: u8, const H: u8> State<W, H> {
    /// Where the camera stands.
    pub open spec fn camera(self) -> (int, int) {
        (self.camera_x as int, self.camera_y as int)
    }

    /// Where the player piece stands.
    pub open spec fn player_at(self) -> Coord {
        (self.player.x@, self.player.y@)
    }

    /// Every pair that a frame draws, in drawing order: the under-filled
    /// grid.
    pub open spec fn drawn_pairs(self) -> Seq<(Coord, Cell)> {
        under_fill(HZ_BOTTOM as int, layer_order(W as int, H as int, self.grid@))
    }

    /// The draw call for the player piece: it stands on its cell.
    pub open spec fn player_call(self) -> DrawCall {
        DrawCall {
            sprite: Sprite::Player(self.player.sub_face),
            rect: rect_of(
                self.player_at(),
                cell_at(W as int, self.grid@, self.player_at()).hz as int,
                self.camera(),
            ),
        }
    }

    /// The frame: a block for every drawn pair in drawing order, then the
    /// player piece.
    pub open spec fn frame(self) -> Seq<DrawCall> {
        self.drawn_pairs().map_values(|item: (Coord, Cell)| cube_call(item, self.camera()))
            + seq![self.player_call()]
    }

    /// Whether every block of the frame, and the player piece, can be held
    /// in screen coordinates.
    pub open spec fn frame_fits(self) -> bool {
        &&& forall|i: int|
            0 <= i < self.drawn_pairs().len() ==> fits_screen(
                (#[trigger] self.drawn_pairs()[i]).0,
                self.drawn_pairs()[i].1.hz as int,
                self.camera(),
            )
        &&& fits_screen(
            self.player_at(),
            cell_at(W as int, self.grid@, self.player_at()).hz as int,
            self.camera(),
        )
    }
}

/// A block of height 0 at the origin is drawn at the offset of the camera.
pub proof fn lemma_origin_projects_to_camera(camera: (int, int))
    ensures
        screen_of((0, 0), 0, camera) == camera,
{
}

/// The drawing order paints from the back to the front and from the left
/// to the right: of two blocks of one height, the one that is drawn later
/// lies lower on the screen, or as low and further to the right.
pub proof fn lemma_drawn_later_is_nearer(a: Coord, b: Coord, hz: int, camera: (int, int))
    requires
        drawn_before(a, b),
    ensures
        screen_of(a, hz, camera).1 < screen_of(b, hz, camera).1 || (screen_of(a, hz, camera).1
            == screen_of(b, hz, camera).1 && screen_of(a, hz, camera).0 < screen_of(b, hz, camera).0),
{
}

/// Whether a camera at `camera` lets every block of a grid of `w` by `h`
/// cells, whatever its height, be held in screen coordinates.
pub open spec fn camera_in_range(w: int, h: int, camera: (int, int)) -> bool {
    &&& i16::MIN <= camera.0 - axis_max(w) * X_SCALE
    &&& camera.0 + axis_max(h) * X_SCALE <= i16::MAX
    &&& i16::MIN <= camera.1
    &&& camera.1 + (axis_max(w) + axis_max(h) + HZ::MAX) * Y_SCALE <= i16::MAX
}

/// Under a camera in range, the screen holds a block of any height at any
/// coordinate on the axes of the grid.
pub proof fn lemma_camera_in_range_fits(w: int, h: int, camera: (int, int), c: Coord, hz: int)
    requires
        camera_in_range(w, h, camera),
        0 <= c.0 <= axis_max(w),
        0 <= c.1 <= axis_max(h),
        0 <= hz <= HZ::MAX,
    ensures
        fits_screen(c, hz, camera),
{
}

/// Under a camera in range, the screen holds the whole frame of a world
/// whose player piece stands on the axes of the grid.
pub proof fn lemma_camera_in_range_frame_fits<const W: u8, const H: u8>(state: State<W, H>)
    requires
        camera_in_range(W as int, H as int, state.camera()),
        0 <= state.player_at().0 <= axis_max(W as int),
        0 <= state.player_at().1 <= axis_max(H as int),
    ensures
        state.frame_fits(),
{
    let w = W as int;
    let h = H as int;
    let pairs = layer_order(w, h, state.grid@);
    let drawn = state.drawn_pairs();
    lemma_visits_ahead(w, h, state.grid@.len() as int, GenMode::DiagonalPlateaus, (0, 0));
    assert forall|i: int| 0 <= i < drawn.len() implies fits_screen(
        (#[trigger] drawn[i]).0,
        drawn[i].1.hz as int,
        state.camera(),
    ) by {
        // The pair is drawn for a cell of the grid, at the coordinate of
        // that cell.
        lemma_under_fill_members(HZ_BOTTOM as int, pairs, i);
        let j = choose|j: int|
            0 <= j < pairs.len() && drawn_for(HZ_BOTTOM as int, #[trigger] pairs[j], drawn[i]);
        assert(in_grid(w, h, pairs[j].0));
        lemma_camera_in_range_fits(w, h, state.camera(), drawn[i].0, drawn[i].1.hz as int);
    }
    lemma_camera_in_range_fits(
        w,
        h,
        state.camera(),
        state.player_at(),
        cell_at(w, state.grid@, state.player_at()).hz as int,
    );
}

/// Whether the camera of `state` is in range: it then holds the whole frame.
pub fn camera_fits<const W: u8, const H: u8>(state: &State<W, H>) -> (ok: bool)
    ensures
        ok == camera_in_range(W as int, H as int, state.camera()),
        ok ==> state.frame_fits(),
{
    let camera_x = state.camera_x as i32;
    let camera_y = state.camera_y as i32;
    let max_x = W.saturating_sub(1) as i32;
    let max_y = H.saturating_sub(1) as i32;
    let x_scale = X_SCALE as i32;
    let y_scale = Y_SCALE as i32;
    let most_down = max_x + max_y + HZ::MAX as i32;
    let ok = i16::MIN as i32 <= camera_x - max_x * x_scale && camera_x + max_y * x_scale
        <= i16::MAX as i32 && camera_y + most_down * y_scale <= i16::MAX as i32;
    // The player piece stands on the axes of the grid.
    let _ = (state.player.x.get(), state.player.y.get());
    proof {
        if ok {
            lemma_camera_in_range_frame_fits(*state);
        }
    }
    ok
}

/// Where the block skin `cube_i` lies on the sprite sheet, in pixels: the
/// skins stand in rows of three.
pub fn cube_sprite_xy(cube_i: CubeIndex) -> (xy: (u16, u16))
    requires
        cube_i < CUBE_SKINS,
    ensures
        xy.0 as int == CUBE_BASE_X + CUBE_X_ADV * (cube_i as int % 3),
        xy.1 as int == CUBE_BASE_Y + CUBE_Y_ADV * (cube_i as int / 3),
{
    let i = cube_i as u16;
    (
        CUBE_BASE_X + CUBE_X_ADV * (i % CUBE_SKINS_PER_ROW),
        CUBE_BASE_Y + CUBE_Y_ADV * (i / CUBE_SKINS_PER_ROW),
    )
}

/// The isometric position of `cell` at `xy`, before scaling: to the right
/// as `y` grows and to the left as `x` grows, downwards as either grows and
/// as the height grows.
pub fn to_iso<const W: u8, const H: u8>(xy: (GridX<W>, GridY<H>), cell: Cell) -> (iso: (
    CameraX,
    CameraY,
))
    ensures
        (iso.0 as int, iso.1 as int) == iso_of((xy.0@, xy.1@), cell.hz as int),
        -(u8::MAX as int) <= iso.0 <= u8::MAX,
        0 <= iso.1 <= 3 * u8::MAX,
{
    let (grid_x, grid_y) = xy;
    let x = grid_x.get();
    let y = grid_y.get();
    (y as CameraX - x as CameraX, y as CameraY + x as CameraY + cell.hz as CameraY)
}

/// The screen position of `cell` at `xy` under a camera at
/// `(camera_x, camera_y)`.
pub fn project<const W: u8, const H: u8>(
    xy: (GridX<W>, GridY<H>),
    cell: Cell,
    camera_x: CameraX,
    camera_y: CameraY,
) -> (screen: (i16, i16))
    requires
        fits_screen((xy.0@, xy.1@), cell.hz as int, (camera_x as int, camera_y as int)),
    ensures
        (screen.0 as int, screen.1 as int) == screen_of(
            (xy.0@, xy.1@),
            cell.hz as int,
            (camera_x as int, camera_y as int),
        ),
{
    let (iso_x, iso_y) = to_iso(xy, cell);
    (iso_x * X_SCALE + camera_x, iso_y * Y_SCALE + camera_y)
}

/// The frame of a world: one draw call for every block of the under-filled
/// drawing order, in that order, then one for the player piece.
pub fn render<const W: u8, const H: u8>(state: &State<W, H>) -> (calls: Vec<DrawCall>)
    requires
        state.wf(),
        W >= 1,
        H >= 1,
        state.frame_fits(),
    ensures
        calls@ == state.frame(),
{
    let ghost camera = state.camera();
    let ghost draw = |item: (Coord, Cell)| cube_call(item, camera);
    let mut calls: Vec<DrawCall> = Vec::new();
    let mut iter = DrawIter::<W, H>::of(state.grid.as_slice());
    let ghost all = iter.remaining();
    let ghost mut done: int = 0;
    loop
        invariant
            all == state.drawn_pairs(),
            state.frame_fits(),
            camera == state.camera(),
            draw == |item: (Coord, Cell)| cube_call(item, camera),
            0 <= done <= all.len(),
            iter.remaining() == all.skip(done),
            calls@ == all.take(done).map_values(draw),
        ensures
            calls@ == all.map_values(draw),
        decreases iter.remaining().len(),
    {
        match iter.next() {
            Some((xy, cell)) => {
                let (x, y) = project(xy, cell, state.camera_x, state.camera_y);
                calls.push(
                    DrawCall { sprite: Sprite::Cube(cell.cube_i), rect: Rect { x, y, w: CUBE_W, h: CUBE_H } },
                );
                proof {
                    assert(all.take(done + 1).map_values(draw) =~= all.take(done).map_values(draw).push(
                        draw(all[done]),
                    ));
                    done = done + 1;
                }
            },
            None => {
                break ;
            },
        }
    }

    let player_cell = state.player_cell();
    let (x, y) = project((state.player.x, state.player.y), player_cell, state.camera_x, state.camera_y);
    calls.push(
        DrawCall { sprite: Sprite::Player(state.player.sub_face), rect: Rect { x, y, w: CUBE_W, h: CUBE_H } },
    );
    calls
}

} // verus!
