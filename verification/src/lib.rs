//! Painter's-order traversal, under-fill and height-field generation for a
//! grid of stacked blocks drawn in isometric projection.
//!
//! The grid is drawn without a depth buffer: its cells are handed out
//! diagonal by diagonal, so that a block drawn later always stands nearer to
//! the viewer than the blocks it covers. The same kind of walk gives every
//! cell its height when the grid is generated.
//!
//! - [`grid`]: bounded coordinates, cells, and the row-major index mapping.
//! - [`walk`]: the walks over the grid, as mathematics.
//! - [`order`]: the laws of the walks.
//! - [`layer`]: the diagonal enumerator.
//! - [`fill`]: the under-fill wrapper round the enumerator.
//! - [`generate`]: the height-field generator.
//! - [`project`]: the isometric projector and the frame.
//! - [`player`]: the player piece.
//! - [`state`]: the world, and how buttons act on it.

pub mod fill;
pub mod generate;
pub mod grid;
pub mod layer;
pub mod order;
pub mod player;
pub mod project;
pub mod state;
pub mod walk;
