//! The player piece: where it stands, which way it faces and how it moves.

use vstd::prelude::*;
use crate::grid::{GridX, GridY};

verus! {

pub type PlayerX<const W: u8> = GridX<W>;

pub type PlayerY<const H: u8> = GridY<H>;

/// The number of sub-faces.
pub const SUB_FACE_COUNT: u8 = 12;

/// The sprite sheet column of the first player sprite, in pixels.
pub const PLAYER_BASE_X: u16 = 128;

/// The distance between two columns of player sprites, in pixels.
pub const PLAYER_X_ADV: u16 = 112;

/// The sprite sheet row of the first player sprite, in pixels.
pub const PLAYER_BASE_Y: u16 = 256;

/// The distance between two rows of player sprites, in pixels.
pub const PLAYER_Y_ADV: u16 = 128;

/// The number of player sprites in one row of the sprite sheet.
pub const PLAYER_SPRITES_PER_ROW: u16 = 3;

/// The part of a block's face that the player piece sits on.
#[derive(Clone, Copy, Debug, PartialEq, Eq, Structural)]
pub enum SubFace {
    LeftBottom,
    LeftMiddle,
    LeftTop,
    RightBottom,
    RightMiddle,
    RightTop,
    /// The top slash like this `/`
    TopSlashBottom,
    TopSlashMiddle,
    TopSlashTop,
    /// The top slash like this `\`
    TopBackslashBottom,
    TopBackslashMiddle,
    TopBackslashTop,
}

impl Default for SubFace {
    fn default() -> (face: Self)
        ensures
            face == SubFace::LeftBottom,
    {
        SubFace::LeftBottom
    }
}

impl SubFace {
    /// The place of the sub-face in the cycle of sub-faces, from 0.
    pub open spec fn ordinal(self) -> int {
        match self {
            SubFace::LeftBottom => 0,
            SubFace::LeftMiddle => 1,
            SubFace::LeftTop => 2,
            SubFace::RightBottom => 3,
            SubFace::RightMiddle => 4,
            SubFace::RightTop => 5,
            SubFace::TopSlashBottom => 6,
            SubFace::TopSlashMiddle => 7,
            SubFace::TopSlashTop => 8,
            SubFace::TopBackslashBottom => 9,
            SubFace::TopBackslashMiddle => 10,
            SubFace::TopBackslashTop => 11,
        }
    }

    /// The place of the sub-face in the cycle of sub-faces, from 0.
    pub fn index(self) -> (i: u8)
        ensures
            i as int == self.ordinal(),
            i < SUB_FACE_COUNT,
    {
        match self {
            SubFace::LeftBottom => 0,
            SubFace::LeftMiddle => 1,
            SubFace::LeftTop => 2,
            SubFace::RightBottom => 3,
            SubFace::RightMiddle => 4,
            SubFace::RightTop => 5,
            SubFace::TopSlashBottom => 6,
            SubFace::TopSlashMiddle => 7,
            SubFace::TopSlashTop => 8,
            SubFace::TopBackslashBottom => 9,
            SubFace::TopBackslashMiddle => 10,
            SubFace::TopBackslashTop => 11,
        }
    }

    /// Where the sprite of the sub-face lies on the sprite sheet, in pixels:
    /// the sprites stand in rows of three.
    pub fn sprite_xy(self) -> (xy: (u16, u16))
        ensures
            xy.0 as int == PLAYER_BASE_X + PLAYER_X_ADV * (self.ordinal() % 3),
            xy.1 as int == PLAYER_BASE_Y + PLAYER_Y_ADV * (self.ordinal() / 3),
    {
        let i = self.index() as u16;
        (
            PLAYER_BASE_X + PLAYER_X_ADV * (i % PLAYER_SPRITES_PER_ROW),
            PLAYER_BASE_Y + PLAYER_Y_ADV * (i / PLAYER_SPRITES_PER_ROW),
        )
    }

    /// The next sub-face of the cycle; the last is followed by the first.
    pub fn wrapping_add_1(self) -> (next: Self)
        ensures
            next.ordinal() == (self.ordinal() + 1) % (SUB_FACE_COUNT as int),
    {
        match self {
            SubFace::LeftBottom => SubFace::LeftMiddle,
            SubFace::LeftMiddle => SubFace::LeftTop,
            SubFace::LeftTop => SubFace::RightBottom,
            SubFace::RightBottom => SubFace::RightMiddle,
            SubFace::RightMiddle => SubFace::RightTop,
            SubFace::RightTop => SubFace::TopSlashBottom,
            SubFace::TopSlashBottom => SubFace::TopSlashMiddle,
            SubFace::TopSlashMiddle => SubFace::TopSlashTop,
            SubFace::TopSlashTop => SubFace::TopBackslashBottom,
            SubFace::TopBackslashBottom => SubFace::TopBackslashMiddle,
            SubFace::TopBackslashMiddle => SubFace::TopBackslashTop,
            SubFace::TopBackslashTop => SubFace::LeftBottom,
        }
    }

    /// The sub-face before this one in the cycle; the first is preceded by
    /// the last.
    pub fn wrapping_sub_1(self) -> (previous: Self)
        ensures
            previous.ordinal() == (self.ordinal() + SUB_FACE_COUNT - 1) % (SUB_FACE_COUNT as int),
    {
        match self {
            SubFace::LeftBottom => SubFace::TopBackslashTop,
            SubFace::LeftMiddle => SubFace::LeftBottom,
            SubFace::LeftTop => SubFace::LeftMiddle,
            SubFace::RightBottom => SubFace::LeftTop,
            SubFace::RightMiddle => SubFace::RightBottom,
            SubFace::RightTop => SubFace::RightMiddle,
            SubFace::TopSlashBottom => SubFace::RightTop,
            SubFace::TopSlashMiddle => SubFace::TopSlashBottom,
            SubFace::TopSlashTop => SubFace::TopSlashMiddle,
            SubFace::TopBackslashBottom => SubFace::TopSlashTop,
            SubFace::TopBackslashMiddle => SubFace::TopBackslashBottom,
            SubFace::TopBackslashTop => SubFace::TopBackslashMiddle,
        }
    }

    /// No two sub-faces share a place in the cycle.
    pub proof fn lemma_ordinal_one_to_one(a: Self, b: Self)
        requires
            a.ordinal() == b.ordinal(),
        ensures
            a == b,
    {
    }
}

/// The player piece on the grid.
#[derive(Clone, Copy, Debug)]
pub struct Player<const W: u8, const H: u8> {
    pub x: PlayerX<W>,
    pub y: PlayerY<H>,
    pub sub_face: SubFace,
}

impl<const W: u8, const H: u8> Default for Player<W, H> {
    fn default() -> (player: Self)
        ensures
            player.x@ == 0,
            player.y@ == 0,
            player.sub_face == SubFace::LeftBottom,
    {
        Player { x: GridX::default(), y: GridY::default(), sub_face: SubFace::default() }
    }
}

/// Which way the direction buttons move the player piece.
#[derive(Clone, Copy, Debug, PartialEq, Eq, Structural)]
pub enum MoveMode {
    /// Up and down move along `x`, left and right along `y`.
    A,
    /// Up and down move along `y`, left and right along `x`.
    B,
}

impl Default for MoveMode {
    fn default() -> (mode: Self)
        ensures
            mode == MoveMode::A,
    {
        MoveMode::A
    }
}

} // verus!
