//! Runtime state layer of a tile-based grid game.
//!
//! The library owns all game entities, their tile classifications and their
//! positions within a multi-layer 2D spatial index, and it enforces movement
//! legality. Terrain generation, rendering and input handling are external
//! collaborators: terrain arrives as a grid of tile classifications, and the
//! driver drains the render projection and feeds directional move commands.

pub mod components;
pub mod entity;
pub mod game;
pub mod geometry;
pub mod spatial;
pub mod view;

pub use components::{Tile, TileTable};
pub use entity::{Entity, EntityAllocator};
pub use game::{EntityToRender, GameState, TerrainTile};
pub use geometry::{CardinalDirection, Coord, Size};
pub use spatial::{Layer, Layers, Location, SpatialError, SpatialTable};
pub use view::AppView;
