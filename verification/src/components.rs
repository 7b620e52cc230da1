//! The component kinds of the game and the values that entities carry.

use vstd::prelude::*;
use crate::world::{
    register_left_mover, register_player, register_position, register_renderable, world_ready,
    world_view,
};

verus! {

/// Width of the grid, in cells. Horizontal movement wraps at this bound.
pub const GRID_WIDTH: i32 = 80;

/// Grid coordinates of an entity.
#[derive(Clone, Copy, Debug, PartialEq, Eq, Structural)]
pub struct Position {
    pub x: i32,
    pub y: i32,
}

/// A colour, as its red, green and blue parts.
#[derive(Clone, Copy, Debug, PartialEq, Eq, Structural)]
pub struct Color {
    pub r: u8,
    pub g: u8,
    pub b: u8,
}

/// How an entity is drawn: presentation only, no rule of the game reads it.
#[derive(Clone, Copy, Debug, PartialEq, Eq, Structural)]
pub struct Renderable {
    pub glyph: u16,
    pub fg: Color,
    pub bg: Color,
}

/// Marks an entity that walks one cell to the left on every tick.
#[derive(Clone, Copy, Debug, PartialEq, Eq, Structural)]
pub struct LeftMover {}

/// Marks the entity that the player steers.
#[derive(Clone, Copy, Debug, PartialEq, Eq, Structural)]
pub struct Player {}

/// The kinds of component that the store can hold, one table each.
#[derive(Clone, Copy, Debug, PartialEq, Eq, Structural)]
pub enum ComponentKind {
    Position,
    Renderable,
    LeftMover,
    Player,
}

/// A component value of any kind.
#[derive(Clone, Copy, Debug, PartialEq, Eq, Structural)]
pub enum ComponentValue {
    Position(Position),
    Renderable(Renderable),
    LeftMover(LeftMover),
    Player(Player),
}

/// A generation-checked handle of an entity: the slot it occupies and the
/// generation of that slot at the time the entity was created.
#[derive(Clone, Copy, Debug, PartialEq, Eq, Structural)]
pub struct EntityHandle {
    pub index: u32,
    pub generation: i32,
}

/// The number of slots that the store can address: the entity allocator
/// keeps its slots in bit sets of four layers of machine words, which hold
/// this many bits.
pub open spec fn spec_slot_limit() -> u32 {
    if usize::BITS == 64 {
        16_777_216
    } else {
        1_048_576
    }
}

/// The number of slots that the store can address.
#[verifier::when_used_as_spec(spec_slot_limit)]
pub fn slot_limit() -> (limit: u32)
    ensures
        limit == spec_slot_limit(),
{
    if usize::BITS == 64 {
        16_777_216
    } else {
        1_048_576
    }
}

/// A kind of tile of the map.
#[derive(Clone, Copy, Debug, PartialEq, Eq, Structural)]
pub enum TileType {
    Wall,
    Floor,
}

impl specs::Component for Position {
    type Storage = specs::DenseVecStorage<Position>;
}

impl specs::Component for Renderable {
    type Storage = specs::DenseVecStorage<Renderable>;
}

impl specs::Component for LeftMover {
    type Storage = specs::DenseVecStorage<LeftMover>;
}

impl specs::Component for Player {
    type Storage = specs::DenseVecStorage<Player>;
}

impl ComponentValue {
    /// The kind of table that this value belongs to.
    pub open spec fn spec_kind(self) -> ComponentKind {
        match self {
            ComponentValue::Position(_) => ComponentKind::Position,
            ComponentValue::Renderable(_) => ComponentKind::Renderable,
            ComponentValue::LeftMover(_) => ComponentKind::LeftMover,
            ComponentValue::Player(_) => ComponentKind::Player,
        }
    }

    /// The kind of table that this value belongs to.
    #[verifier::when_used_as_spec(spec_kind)]
    pub fn kind(self) -> (k: ComponentKind)
        ensures
            k == self.spec_kind(),
    {
        match self {
            ComponentValue::Position(_) => ComponentKind::Position,
            ComponentValue::Renderable(_) => ComponentKind::Renderable,
            ComponentValue::LeftMover(_) => ComponentKind::LeftMover,
            ComponentValue::Player(_) => ComponentKind::Player,
        }
    }
}

/// Registers the four component kinds in `ecs` and hands it back. A kind
/// that was registered before keeps its table; nothing else in the world
/// changes.
pub fn register_components(ecs: specs::World) -> (registered: specs::World)
    requires
        world_ready(ecs),
    ensures
        world_ready(registered),
        world_view(registered) == world_view(ecs).register_all(),
{
    let mut ecs = ecs;
    register_position(&mut ecs);
    register_renderable(&mut ecs);
    register_left_mover(&mut ecs);
    register_player(&mut ecs);
    ecs
}

} // verus!
