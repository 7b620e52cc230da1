//! The game state: the entity store with its registry, and one tick of the
//! turn loop over it.

use vstd::prelude::*;
use crate::components::{
    register_components, slot_limit, ComponentKind, ComponentValue, EntityHandle, Position,
    TileType,
};
use crate::error::StoreError;
use crate::model::{is_sprite_list, is_table, Sprite, StoreModel};
use crate::movement::LeftWalker;
use crate::registry::Registry;
use crate::world::{
    attach_left_mover, attach_player, attach_position, attach_renderable, create_entity,
    defer_left_mover, defer_player, defer_position, defer_renderable, fetch_tiles, insert_tiles, left_mover_rows, live_at, maintain, mark_destroyed, new_world,
    player_rows, position_at, position_rows, register_left_mover, register_player,
    register_position, register_renderable, renderable_rows, world_ready, world_view,
};

verus! {

/// What one tick hands to the display: the map and the entities to draw on
/// it.
#[derive(Debug)]
pub struct Frame {
    pub tiles: Vec<TileType>,
    pub sprites: Vec<Sprite>,
}

/// The state of a game: every entity, component and resource, with the
/// registry of the component kinds.
pub struct State {
    ecs: specs::World,
    registry: Registry,
    spawned: u32,
}

impl View for State {
    type V = StoreModel;

    closed spec fn view(&self) -> StoreModel {
        world_view(self.ecs)
    }
}

impl State {
    /// The invariant of the state: the store is well formed and the
    /// registry names exactly the kinds that the store has tables for.
    pub closed spec fn wf(&self) -> bool {
        &&& world_ready(self.ecs)
        &&& world_view(self.ecs).well_formed()
        &&& self.registry@ == world_view(self.ecs).kinds
        &&& self.spawned == world_view(self.ecs).spawned
    }

    /// What is well formed as a state is well formed as a store.
    pub proof fn lemma_wf_view(&self)
        requires
            self.wf(),
        ensures
            self@.well_formed(),
    {
    }

    /// A state with no kind registered, no entity and no resource.
    pub fn empty() -> (s: State)
        ensures
            s.wf(),
            s@ == StoreModel::empty(),
    {
        let ecs = new_world();
        State { ecs, registry: Registry::new(), spawned: 0 }
    }

    /// A state with the four component kinds registered, and no entity and
    /// no resource yet.
    pub fn new() -> (s: State)
        ensures
            s.wf(),
            s@ == StoreModel::empty().register_all(),
    {
        let ecs = register_components(new_world());
        let mut registry = Registry::new();
        registry.register(ComponentKind::Position);
        registry.register(ComponentKind::Renderable);
        registry.register(ComponentKind::LeftMover);
        registry.register(ComponentKind::Player);
        State { ecs, registry, spawned: 0 }
    }

    /// Registers `kind`: declares its table. Registering a kind again
    /// changes nothing.
    pub fn register(&mut self, kind: ComponentKind)
        requires
            old(self).wf(),
        ensures
            final(self).wf(),
            final(self)@ == old(self)@.register(kind),
    {
        match kind {
            ComponentKind::Position => register_position(&mut self.ecs),
            ComponentKind::Renderable => register_renderable(&mut self.ecs),
            ComponentKind::LeftMover => register_left_mover(&mut self.ecs),
            ComponentKind::Player => register_player(&mut self.ecs),
        }
        self.registry.register(kind);
    }

    /// Whether `kind` was registered.
    pub fn is_registered(&self, kind: ComponentKind) -> (found: bool)
        requires
            self.wf(),
        ensures
            found == self@.kinds.contains(kind),
    {
        self.registry.contains(kind)
    }

    /// Whether the store has room for one more entity.
    pub fn has_room(&self) -> (room: bool)
        requires
            self.wf(),
        ensures
            room == self@.has_room(),
    {
        self.spawned < slot_limit()
    }

    /// Creates an entity that carries no component. Its handle names no
    /// entity that the store held before.
    pub fn create_entity(&mut self) -> (e: EntityHandle)
        requires
            old(self).wf(),
            old(self)@.has_room(),
        ensures
            final(self).wf(),
            !old(self)@.entities.contains(e),
            final(self)@ == old(self)@.spawn(e),
    {
        let e = create_entity(&mut self.ecs);
        self.spawned = self.spawned + 1;
        e
    }

    /// Creates an entity as `create_entity` does where the store has room
    /// for one; else gives `None` and leaves the store as it is.
    pub fn try_create_entity(&mut self) -> (made: Option<EntityHandle>)
        requires
            old(self).wf(),
        ensures
            final(self).wf(),
            match made {
                Some(e) => {
                    &&& old(self)@.has_room()
                    &&& !old(self)@.entities.contains(e)
                    &&& final(self)@ == old(self)@.spawn(e)
                },
                None => !old(self)@.has_room() && final(self)@ == old(self)@,
            },
    {
        if self.has_room() {
            Some(self.create_entity())
        } else {
            None
        }
    }

    /// Whether `e` names an entity of the store. An entity that is marked
    /// for removal is in the store until the barrier. A handle whose slot
    /// the store cannot address names none.
    pub fn is_alive(&self, e: EntityHandle) -> (alive: bool)
        requires
            self.wf(),
        ensures
            alive == self@.entities.contains(e),
            e.index >= slot_limit() ==> !alive,
    {
        if e.index >= slot_limit() {
            return false;
        }
        match live_at(&self.ecs, e.index) {
            Some(h) => h.generation == e.generation,
            None => false,
        }
    }

    /// Gives `e` the component `c`, in place of any value of that kind that
    /// it carried. Refused, with the store unchanged, where the kind of `c`
    /// was never registered, and else where `e` names no entity of the
    /// store.
    pub fn attach(&mut self, e: EntityHandle, c: ComponentValue) -> (r: Result<(), StoreError>)
        requires
            old(self).wf(),
        ensures
            final(self).wf(),
            match r {
                Ok(_) => {
                    &&& old(self)@.attach_refusal(e, c).is_none()
                    &&& final(self)@ == old(self)@.attach(e, c)
                },
                Err(err) => {
                    &&& old(self)@.attach_refusal(e, c) == Some(err)
                    &&& final(self)@ == old(self)@
                },
            },
    {
        if !self.registry.contains(c.kind()) {
            return Err(StoreError::UnregisteredComponent);
        }
        if !self.is_alive(e) {
            return Err(StoreError::StaleEntityHandle);
        }
        match c {
            ComponentValue::Position(p) => attach_position(&mut self.ecs, e, p),
            ComponentValue::Renderable(v) => attach_renderable(&mut self.ecs, e, v),
            ComponentValue::LeftMover(m) => attach_left_mover(&mut self.ecs, e, m),
            ComponentValue::Player(m) => attach_player(&mut self.ecs, e, m),
        }
        Ok(())
    }

    /// Defers giving `e` the component `c` to the next barrier: until then
    /// no read sees it, and the systems of that tick do not act on it. The
    /// barrier commits deferred attachments in the order in which they were
    /// asked for, after the marked entities left, and passes over one whose
    /// entity has left. Refused, with the store unchanged, where the kind of
    /// `c` was never registered, and else where `e` names no entity of the
    /// store.
    pub fn attach_deferred(&mut self, e: EntityHandle, c: ComponentValue) -> (r: Result<
        (),
        StoreError,
    >)
        requires
            old(self).wf(),
        ensures
            final(self).wf(),
            match r {
                Ok(_) => {
                    &&& old(self)@.attach_refusal(e, c).is_none()
                    &&& final(self)@ == old(self)@.defer(e, c)
                },
                Err(err) => {
                    &&& old(self)@.attach_refusal(e, c) == Some(err)
                    &&& final(self)@ == old(self)@
                },
            },
    {
        if !self.registry.contains(c.kind()) {
            return Err(StoreError::UnregisteredComponent);
        }
        if !self.is_alive(e) {
            return Err(StoreError::StaleEntityHandle);
        }
        match c {
            ComponentValue::Position(p) => defer_position(&mut self.ecs, e, p),
            ComponentValue::Renderable(v) => defer_renderable(&mut self.ecs, e, v),
            ComponentValue::LeftMover(m) => defer_left_mover(&mut self.ecs, e, m),
            ComponentValue::Player(m) => defer_player(&mut self.ecs, e, m),
        }
        Ok(())
    }

    /// Marks `e` for removal at the next barrier. Until then every read and
    /// write sees the entity and its components as before. Refused where
    /// `e` names no entity of the store.
    pub fn mark_destroyed(&mut self, e: EntityHandle) -> (r: Result<(), StoreError>)
        requires
            old(self).wf(),
        ensures
            final(self).wf(),
            match r {
                Ok(_) => {
                    &&& old(self)@.live_refusal(e).is_none()
                    &&& final(self)@ == old(self)@.mark(e)
                },
                Err(err) => {
                    &&& old(self)@.live_refusal(e) == Some(err)
                    &&& final(self)@ == old(self)@
                },
            },
    {
        if !self.is_alive(e) {
            return Err(StoreError::StaleEntityHandle);
        }
        mark_destroyed(&mut self.ecs, e);
        Ok(())
    }

    /// The barrier of the tick: every marked entity leaves the store, with
    /// the components it carried; then the deferred attachments are
    /// committed.
    pub fn maintain(&mut self)
        requires
            old(self).wf(),
        ensures
            final(self).wf(),
            final(self)@ == old(self)@.maintain(),
            final(self)@.kinds == old(self)@.kinds,
            final(self)@.tiles == old(self)@.tiles,
            final(self)@.entities == old(self)@.entities.difference(old(self)@.doomed),
    {
        proof {
            old(self)@.lemma_maintain_frame();
            old(self)@.lemma_maintain_well_formed();
        }
        maintain(&mut self.ecs);
    }

    /// Sets the map resource to `tiles`, in place of any map set before.
    pub fn insert_resource(&mut self, tiles: Vec<TileType>)
        requires
            old(self).wf(),
        ensures
            final(self).wf(),
            final(self)@ == old(self)@.with_tiles(tiles@),
    {
        insert_tiles(&mut self.ecs, tiles);
    }

    /// The map resource. Refused where none was inserted.
    pub fn fetch_resource(&self) -> (r: Result<Vec<TileType>, StoreError>)
        requires
            self.wf(),
        ensures
            match r {
                Ok(tiles) => self@.tiles == Some(tiles@),
                Err(err) => err == StoreError::ResourceMissing && self@.tiles.is_none(),
            },
    {
        match fetch_tiles(&self.ecs) {
            Some(tiles) => Ok(tiles),
            None => Err(StoreError::ResourceMissing),
        }
    }

    /// The table of `kind`: each entity that carries the kind, with the
    /// value it carries, by ascending slot. Entities that are marked for
    /// removal are listed until the barrier. Refused where the kind was
    /// never registered.
    pub fn read_all(&self, kind: ComponentKind) -> (r: Result<Vec<(EntityHandle, ComponentValue)>, StoreError>)
        requires
            self.wf(),
        ensures
            match r {
                Ok(rows) => {
                    &&& self@.kind_refusal(kind).is_none()
                    &&& is_table(rows@, self@.components, kind)
                },
                Err(err) => self@.kind_refusal(kind) == Some(err),
            },
    {
        if !self.registry.contains(kind) {
            return Err(StoreError::UnregisteredComponent);
        }
        let rows = match kind {
            ComponentKind::Position => position_rows(&self.ecs),
            ComponentKind::Renderable => renderable_rows(&self.ecs),
            ComponentKind::LeftMover => left_mover_rows(&self.ecs),
            ComponentKind::Player => player_rows(&self.ecs),
        };
        Ok(rows)
    }

    /// The position that `e` carries; `None` where it carries none, or
    /// names no entity of the store. Refused where positions were never
    /// registered.
    pub fn position_of(&self, e: EntityHandle) -> (r: Result<Option<Position>, StoreError>)
        requires
            self.wf(),
        ensures
            match r {
                Ok(found) => {
                    &&& self@.kind_refusal(ComponentKind::Position).is_none()
                    &&& found == self@.position_of(e)
                    &&& !self@.entities.contains(e) ==> found is None
                },
                Err(err) => self@.kind_refusal(ComponentKind::Position) == Some(err),
            },
    {
        if !self.registry.contains(ComponentKind::Position) {
            return Err(StoreError::UnregisteredComponent);
        }
        if !self.is_alive(e) {
            return Ok(None);
        }
        Ok(position_at(&self.ecs, e))
    }

    /// Runs the systems of one tick in their fixed order, then the barrier:
    /// every entity that walks left makes one step, the marked entities
    /// leave, and the deferred attachments are committed. Refused, with the store unchanged, where the kinds that the
    /// movement system works on were never registered.
    pub fn run_systems(&mut self) -> (r: Result<(), StoreError>)
        requires
            old(self).wf(),
        ensures
            final(self).wf(),
            match r {
                Ok(_) => {
                    &&& old(self)@.systems_refusal().is_none()
                    &&& final(self)@ == old(self)@.ticked()
                    &&& final(self)@.kinds == old(self)@.kinds
                    &&& final(self)@.tiles == old(self)@.tiles
                    &&& final(self)@.entities == old(self)@.entities.difference(old(self)@.doomed)
                },
                Err(err) => {
                    &&& old(self)@.systems_refusal() == Some(err)
                    &&& final(self)@ == old(self)@
                },
            },
    {
        if !self.registry.contains(ComponentKind::LeftMover) || !self.registry.contains(
            ComponentKind::Position,
        ) {
            return Err(StoreError::UnregisteredComponent);
        }
        proof {
            old(self)@.lemma_moved_well_formed();
            old(self)@.moved().lemma_maintain_frame();
            old(self)@.moved().lemma_maintain_well_formed();
        }
        let mut lw = LeftWalker {};
        lw.run(&mut self.ecs);
        maintain(&mut self.ecs);
        Ok(())
    }

    /// What the store gives to draw: the map, and a sprite for each entity
    /// that carries both a position and a renderable, by ascending slot.
    /// The store is only read. Refused where no map was inserted, and else
    /// where positions or renderables were never registered.
    pub fn snapshot(&self) -> (r: Result<Frame, StoreError>)
        requires
            self.wf(),
        ensures
            match r {
                Ok(frame) => {
                    &&& self@.snapshot_refusal().is_none()
                    &&& self@.tiles == Some(frame.tiles@)
                    &&& is_sprite_list(frame.sprites@, self@.components)
                },
                Err(err) => self@.snapshot_refusal() == Some(err),
            },
    {
        let tiles = match fetch_tiles(&self.ecs) {
            Some(tiles) => tiles,
            None => {
                return Err(StoreError::ResourceMissing);
            },
        };
        if !self.registry.contains(ComponentKind::Position) || !self.registry.contains(
            ComponentKind::Renderable,
        ) {
            return Err(StoreError::UnregisteredComponent);
        }
        let ghost components = self@.components;
        let rows = renderable_rows(&self.ecs);
        let mut sprites: Vec<Sprite> = Vec::new();
        let mut i: usize = 0;
        while i < rows.len()
            invariant
                0 <= i <= rows.len(),
                self.wf(),
                self@.kinds.contains(ComponentKind::Position),
                components == self@.components,
                is_table(rows@, components, ComponentKind::Renderable),
                forall|a: int, b: int|
                    0 <= a < b < sprites.len() ==> (#[trigger] sprites[a]).entity.index
                        < (#[trigger] sprites[b]).entity.index,
                forall|a: int|
                    0 <= a < sprites.len() ==> i < rows.len() ==> (#[trigger] sprites[a]).entity.index
                        < rows[i as int].0.index,
                forall|a: int|
                    0 <= a < sprites.len() ==> {
                        let s = #[trigger] sprites[a];
                        &&& components.contains_key((s.entity, ComponentKind::Position))
                        &&& components[(s.entity, ComponentKind::Position)]
                            == ComponentValue::Position(s.position)
                        &&& components.contains_key((s.entity, ComponentKind::Renderable))
                        &&& components[(s.entity, ComponentKind::Renderable)]
                            == ComponentValue::Renderable(s.renderable)
                    },
                forall|j: int|
                    0 <= j < i && components.contains_key(
                        ((#[trigger] rows[j]).0, ComponentKind::Position),
                    ) ==> exists|a: int|
                        0 <= a < sprites.len() && (#[trigger] sprites[a]).entity == rows[j].0,
            decreases rows.len() - i,
        {
            let e = rows[i].0;
            let ghost before = sprites@;
            proof {
                self.lemma_wf_view();
                assert(components.contains_key((rows[i as int].0, ComponentKind::Renderable)));
                assert(self@.entities.contains(e));
            }
            match rows[i].1 {
                ComponentValue::Renderable(renderable) => {
                    match position_at(&self.ecs, e) {
                        Some(position) => {
                            sprites.push(Sprite { entity: e, position, renderable });
                            proof {
                                let last = sprites.len() - 1;
                                assert(sprites[last].entity == rows[i as int].0);
                                assert forall|j: int|
                                    0 <= j < i + 1 && components.contains_key(
                                        ((#[trigger] rows[j]).0, ComponentKind::Position),
                                    ) implies exists|a: int|
                                    0 <= a < sprites.len() && (#[trigger] sprites[a]).entity
                                        == rows[j].0 by {
                                    if j < i {
                                        let a = choose|a: int|
                                            0 <= a < before.len() && (#[trigger] before[a]).entity
                                                == rows[j].0;
                                        assert(sprites[a] == before[a]);
                                    } else {
                                        assert(sprites[last].entity == rows[j].0);
                                    }
                                }
                            }
                        },
                        None => {},
                    }
                },
                _ => {},
            }
            proof {
                if i + 1 < rows.len() {
                    assert(rows[i as int].0.index < rows[i + 1].0.index);
                }
            }
            i = i + 1;
        }
        proof {
            assert forall|h: EntityHandle|
                components.contains_key((h, ComponentKind::Position)) && components.contains_key(
                    (h, ComponentKind::Renderable),
                ) implies exists|a: int|
                0 <= a < sprites.len() && (#[trigger] sprites[a]).entity == h by {
                let j = choose|j: int| 0 <= j < rows.len() && (#[trigger] rows[j]).0 == h;
                assert(components.contains_key((rows[j].0, ComponentKind::Position)));
            }
        }
        Ok(Frame { tiles, sprites })
    }

    /// One tick of the turn loop, between the input and the display: the
    /// systems run in their fixed order, the barrier removes the marked
    /// entities, and the store is read out as a frame. Refused, with the
    /// store unchanged, where a kind that the tick reads or writes was never
    /// registered, or no map was inserted.
    pub fn tick(&mut self) -> (r: Result<Frame, StoreError>)
        requires
            old(self).wf(),
        ensures
            final(self).wf(),
            match r {
                Ok(frame) => {
                    &&& old(self)@.tick_refusal().is_none()
                    &&& final(self)@ == old(self)@.ticked()
                    &&& final(self)@.kinds == old(self)@.kinds
                    &&& final(self)@.entities == old(self)@.entities.difference(old(self)@.doomed)
                    &&& final(self)@.tiles == Some(frame.tiles@)
                    &&& is_sprite_list(frame.sprites@, final(self)@.components)
                },
                Err(err) => {
                    &&& old(self)@.tick_refusal() == Some(err)
                    &&& final(self)@ == old(self)@
                },
            },
    {
        if !self.registry.contains(ComponentKind::LeftMover) || !self.registry.contains(
            ComponentKind::Position,
        ) {
            return Err(StoreError::UnregisteredComponent);
        }
        if fetch_tiles(&self.ecs).is_none() {
            return Err(StoreError::ResourceMissing);
        }
        if !self.registry.contains(ComponentKind::Renderable) {
            return Err(StoreError::UnregisteredComponent);
        }
        proof {
            old(self)@.moved().lemma_maintain_frame();
        }
        let ran = self.run_systems();
        assert(ran.is_ok());
        self.snapshot()
    }
}

} // verus!
