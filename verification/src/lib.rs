//! Simulation core of a grid-based game: an entity-component store with
//! deferred destruction, a movement system, and the turn loop around them.

pub mod components;
pub mod error;
pub mod model;
pub mod movement;
pub mod registry;
pub mod state;
pub mod world;

pub use components::{
    register_components, slot_limit, Color, ComponentKind, ComponentValue, EntityHandle, LeftMover, Player,
    Position, Renderable, TileType, GRID_WIDTH,
};
pub use error::StoreError;
pub use model::Sprite;
pub use movement::{step_left, LeftWalker};
pub use registry::Registry;
pub use state::{Frame, State};
