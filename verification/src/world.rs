//! The entity store of `specs`, as this library sees it: names for what a
//! `World` holds, and one function for each of its methods that the library
//! calls. Nothing in this file is proved; the rest of the library is proved
//! from what is stated here.

use vstd::prelude::*;
use specs::{Builder, Join, LendJoin, WorldExt};
use crate::components::{
    spec_slot_limit, ComponentKind, ComponentValue, EntityHandle, LeftMover, Player, Position,
    Renderable, TileType,
};
use crate::model::{is_table, StoreModel};

verus! {

#[verifier::external_type_specification]
#[verifier::external_body]
pub struct ExWorld(specs::World);

#[verifier::external_type_specification]
#[verifier::external_body]
#[verifier::reject_recursive_types(T)]
pub struct ExDenseVecStorage<T>(specs::DenseVecStorage<T>);

/// Whether `w` is set up as `specs` sets a world up (it holds the entity
/// allocator, the table of storages and the queue of lazy updates), with no
/// lazy update queued but the insertions that `world_pending` lists, and no
/// entity created through a shared borrow.
pub uninterp spec fn world_ready(w: specs::World) -> bool;

/// The component kinds of this library for which `w` holds a storage.
pub uninterp spec fn world_kinds(w: specs::World) -> Set<ComponentKind>;

/// The entities that are alive in `w`, each by its slot and generation.
pub uninterp spec fn world_entities(w: specs::World) -> Set<EntityHandle>;

/// The entities of `w` whose deletion is pending.
pub uninterp spec fn world_doomed(w: specs::World) -> Set<EntityHandle>;

/// What the storages of `w` hold: under an entity and a kind, the component
/// of that kind that the entity carries.
pub uninterp spec fn world_components(w: specs::World) -> Map<
    (EntityHandle, ComponentKind),
    ComponentValue,
>;

/// The tiles that `w` holds as a resource, if it holds any.
pub uninterp spec fn world_tiles(w: specs::World) -> Option<Seq<TileType>>;

/// How many entities were ever allocated in `w`, the deleted ones included.
pub uninterp spec fn world_spawned(w: specs::World) -> nat;

/// The lazy insertions that wait in the queue of `w`, first to last, each
/// by the entity and the component it was asked for.
pub uninterp spec fn world_pending(w: specs::World) -> Seq<(EntityHandle, ComponentValue)>;

/// Everything this library reads of a world, as one value.
pub open spec fn world_view(w: specs::World) -> StoreModel {
    StoreModel {
        kinds: world_kinds(w),
        entities: world_entities(w),
        doomed: world_doomed(w),
        components: world_components(w),
        tiles: world_tiles(w),
        spawned: world_spawned(w),
        pending: world_pending(w),
    }
}

/// `specs::WorldExt::new`: a world that is set up and holds no storage, no
/// entity, no component and no tiles, in which no entity was allocated and
/// no insertion waits.
#[verifier::external_body]
pub(crate) fn new_world() -> (w: specs::World)
    ensures
        world_ready(w),
        world_kinds(w) == StoreModel::empty().kinds,
        world_entities(w) == StoreModel::empty().entities,
        world_doomed(w) == StoreModel::empty().doomed,
        world_components(w) == StoreModel::empty().components,
        world_tiles(w) == StoreModel::empty().tiles,
        world_spawned(w) == 0,
        world_pending(w) == StoreModel::empty().pending,
{
    specs::World::new()
}

/// `specs::WorldExt::register` for `Position`: the world then holds a storage
/// of that kind, the one it had if it had one, and nothing else changes.
#[verifier::external_body]
pub(crate) fn register_position(w: &mut specs::World)
    requires
        world_ready(*old(w)),
    ensures
        world_ready(*final(w)),
        world_view(*final(w)) == world_view(*old(w)).register(ComponentKind::Position),
{
    w.register::<Position>();
}

/// `specs::WorldExt::register` for `Renderable`: the world then holds a
/// storage of that kind, the one it had if it had one, and nothing else
/// changes.
#[verifier::external_body]
pub(crate) fn register_renderable(w: &mut specs::World)
    requires
        world_ready(*old(w)),
    ensures
        world_ready(*final(w)),
        world_view(*final(w)) == world_view(*old(w)).register(ComponentKind::Renderable),
{
    w.register::<Renderable>();
}

/// `specs::WorldExt::register` for `LeftMover`: the world then holds a
/// storage of that kind, the one it had if it had one, and nothing else
/// changes.
#[verifier::external_body]
pub(crate) fn register_left_mover(w: &mut specs::World)
    requires
        world_ready(*old(w)),
    ensures
        world_ready(*final(w)),
        world_view(*final(w)) == world_view(*old(w)).register(ComponentKind::LeftMover),
{
    w.register::<LeftMover>();
}

/// `specs::WorldExt::register` for `Player`: the world then holds a storage
/// of that kind, the one it had if it had one, and nothing else changes.
#[verifier::external_body]
pub(crate) fn register_player(w: &mut specs::World)
    requires
        world_ready(*old(w)),
    ensures
        world_ready(*final(w)),
        world_view(*final(w)) == world_view(*old(w)).register(ComponentKind::Player),
{
    w.register::<Player>();
}

/// `specs::WorldExt::create_entity`, built at once with no component: the
/// new entity takes a slot that no living entity has, below the slot limit,
/// and nothing else changes. The allocator takes a free slot or the next
/// unused one, which is at most the number of entities allocated so far;
/// from the slot limit on its bit sets panic or lose entities, and a slot
/// counts its generations in an `i32`. Neither limit is reached while fewer
/// entities than the slot limit were allocated.
#[verifier::external_body]
pub(crate) fn create_entity(w: &mut specs::World) -> (e: EntityHandle)
    requires
        world_ready(*old(w)),
        world_spawned(*old(w)) < spec_slot_limit(),
    ensures
        world_ready(*final(w)),
        e.index < spec_slot_limit(),
        forall|h: EntityHandle| #[trigger]
            world_entities(*old(w)).contains(h) ==> h.index != e.index,
        world_view(*final(w)) == world_view(*old(w)).spawn(e),
{
    let made = w.create_entity().build();
    EntityHandle { index: made.id(), generation: made.gen().id() }
}

/// `specs::join::JoinLendIter::get` on the entities of the world, asked for
/// the entity that `specs::world::EntitiesRes::entity` names for the slot:
/// the living entity in that slot, or `None` where none lives there. The
/// bit sets behind it index out of bounds from the slot limit on.
#[verifier::external_body]
pub(crate) fn live_at(w: &specs::World, index: u32) -> (found: Option<EntityHandle>)
    requires
        world_ready(*w),
        index < spec_slot_limit(),
    ensures
        match found {
            Some(h) => h.index == index && world_entities(*w).contains(h),
            None => forall|h: EntityHandle| #[trigger]
                world_entities(*w).contains(h) ==> h.index != index,
        },
{
    let entities = w.entities();
    let named = entities.entity(index);
    let found = (&entities).lend_join().get(named, &entities);
    found.map(|e| EntityHandle { index: e.id(), generation: e.gen().id() })
}

/// `specs::storage::Storage::insert` on the `Position` storage: a living
/// entity then carries `c`, in place of any position it had, and nothing
/// else changes.
#[verifier::external_body]
pub(crate) fn attach_position(w: &mut specs::World, e: EntityHandle, c: Position)
    requires
        world_ready(*old(w)),
        world_view(*old(w)).slots_in_range(),
        world_kinds(*old(w)).contains(ComponentKind::Position),
        world_entities(*old(w)).contains(e),
    ensures
        world_ready(*final(w)),
        world_view(*final(w)) == world_view(*old(w)).attach(e, ComponentValue::Position(c)),
{
    let target = w.entities().entity(e.index);
    let _ = w.write_storage::<Position>().insert(target, c);
}

/// `specs::storage::Storage::insert` on the `Renderable` storage: a living
/// entity then carries `c`, in place of any value of that kind it had, and
/// nothing else changes.
#[verifier::external_body]
pub(crate) fn attach_renderable(w: &mut specs::World, e: EntityHandle, c: Renderable)
    requires
        world_ready(*old(w)),
        world_view(*old(w)).slots_in_range(),
        world_kinds(*old(w)).contains(ComponentKind::Renderable),
        world_entities(*old(w)).contains(e),
    ensures
        world_ready(*final(w)),
        world_view(*final(w)) == world_view(*old(w)).attach(e, ComponentValue::Renderable(c)),
{
    let target = w.entities().entity(e.index);
    let _ = w.write_storage::<Renderable>().insert(target, c);
}

/// `specs::storage::Storage::insert` on the `LeftMover` storage: a living
/// entity then carries the marker, and nothing else changes.
#[verifier::external_body]
pub(crate) fn attach_left_mover(w: &mut specs::World, e: EntityHandle, c: LeftMover)
    requires
        world_ready(*old(w)),
        world_view(*old(w)).slots_in_range(),
        world_kinds(*old(w)).contains(ComponentKind::LeftMover),
        world_entities(*old(w)).contains(e),
    ensures
        world_ready(*final(w)),
        world_view(*final(w)) == world_view(*old(w)).attach(e, ComponentValue::LeftMover(c)),
{
    let target = w.entities().entity(e.index);
    let _ = w.write_storage::<LeftMover>().insert(target, c);
}

/// `specs::storage::Storage::insert` on the `Player` storage: a living
/// entity then carries the marker, and nothing else changes.
#[verifier::external_body]
pub(crate) fn attach_player(w: &mut specs::World, e: EntityHandle, c: Player)
    requires
        world_ready(*old(w)),
        world_view(*old(w)).slots_in_range(),
        world_kinds(*old(w)).contains(ComponentKind::Player),
        world_entities(*old(w)).contains(e),
    ensures
        world_ready(*final(w)),
        world_view(*final(w)) == world_view(*old(w)).attach(e, ComponentValue::Player(c)),
{
    let target = w.entities().entity(e.index);
    let _ = w.write_storage::<Player>().insert(target, c);
}

/// `specs::LazyUpdate::insert` with a `Position`: the insertion joins the end
/// of the queue, and nothing that is read changes until `maintain`.
#[verifier::external_body]
pub(crate) fn defer_position(w: &mut specs::World, e: EntityHandle, c: Position)
    requires
        world_ready(*old(w)),
        world_view(*old(w)).slots_in_range(),
        world_entities(*old(w)).contains(e),
    ensures
        world_ready(*final(w)),
        world_view(*final(w)) == world_view(*old(w)).defer(e, ComponentValue::Position(c)),
{
    let target = w.entities().entity(e.index);
    w.read_resource::<specs::LazyUpdate>().insert(target, c);
}

/// `specs::LazyUpdate::insert` with a `Renderable`: the insertion joins the end
/// of the queue, and nothing that is read changes until `maintain`.
#[verifier::external_body]
pub(crate) fn defer_renderable(w: &mut specs::World, e: EntityHandle, c: Renderable)
    requires
        world_ready(*old(w)),
        world_view(*old(w)).slots_in_range(),
        world_entities(*old(w)).contains(e),
    ensures
        world_ready(*final(w)),
        world_view(*final(w)) == world_view(*old(w)).defer(e, ComponentValue::Renderable(c)),
{
    let target = w.entities().entity(e.index);
    w.read_resource::<specs::LazyUpdate>().insert(target, c);
}

/// `specs::LazyUpdate::insert` with a `LeftMover`: the insertion joins the end
/// of the queue, and nothing that is read changes until `maintain`.
#[verifier::external_body]
pub(crate) fn defer_left_mover(w: &mut specs::World, e: EntityHandle, c: LeftMover)
    requires
        world_ready(*old(w)),
        world_view(*old(w)).slots_in_range(),
        world_entities(*old(w)).contains(e),
    ensures
        world_ready(*final(w)),
        world_view(*final(w)) == world_view(*old(w)).defer(e, ComponentValue::LeftMover(c)),
{
    let target = w.entities().entity(e.index);
    w.read_resource::<specs::LazyUpdate>().insert(target, c);
}

/// `specs::LazyUpdate::insert` with a `Player`: the insertion joins the end
/// of the queue, and nothing that is read changes until `maintain`.
#[verifier::external_body]
pub(crate) fn defer_player(w: &mut specs::World, e: EntityHandle, c: Player)
    requires
        world_ready(*old(w)),
        world_view(*old(w)).slots_in_range(),
        world_entities(*old(w)).contains(e),
    ensures
        world_ready(*final(w)),
        world_view(*final(w)) == world_view(*old(w)).defer(e, ComponentValue::Player(c)),
{
    let target = w.entities().entity(e.index);
    w.read_resource::<specs::LazyUpdate>().insert(target, c);
}

/// A join of the entities with the `Position` storage, collected: one row
/// for each entity that carries a position, by ascending slot.
#[verifier::external_body]
pub(crate) fn position_rows(w: &specs::World) -> (rows: Vec<(EntityHandle, ComponentValue)>)
    requires
        world_ready(*w),
        world_view(*w).slots_in_range(),
        world_kinds(*w).contains(ComponentKind::Position),
    ensures
        is_table(rows@, world_components(*w), ComponentKind::Position),
{
    let entities = w.entities();
    let storage = w.read_storage::<Position>();
    (&entities, &storage).join().map(
        |(e, c)| (EntityHandle { index: e.id(), generation: e.gen().id() }, ComponentValue::Position(*c)),
    ).collect()
}

/// A join of the entities with the `Renderable` storage, collected: one row
/// for each entity that carries a value of that kind, by ascending slot.
#[verifier::external_body]
pub(crate) fn renderable_rows(w: &specs::World) -> (rows: Vec<(EntityHandle, ComponentValue)>)
    requires
        world_ready(*w),
        world_view(*w).slots_in_range(),
        world_kinds(*w).contains(ComponentKind::Renderable),
    ensures
        is_table(rows@, world_components(*w), ComponentKind::Renderable),
{
    let entities = w.entities();
    let storage = w.read_storage::<Renderable>();
    (&entities, &storage).join().map(
        |(e, c)| (EntityHandle { index: e.id(), generation: e.gen().id() }, ComponentValue::Renderable(*c)),
    ).collect()
}

/// A join of the entities with the `LeftMover` storage, collected: one row
/// for each entity that carries the marker, by ascending slot.
#[verifier::external_body]
pub(crate) fn left_mover_rows(w: &specs::World) -> (rows: Vec<(EntityHandle, ComponentValue)>)
    requires
        world_ready(*w),
        world_view(*w).slots_in_range(),
        world_kinds(*w).contains(ComponentKind::LeftMover),
    ensures
        is_table(rows@, world_components(*w), ComponentKind::LeftMover),
{
    let entities = w.entities();
    let storage = w.read_storage::<LeftMover>();
    (&entities, &storage).join().map(
        |(e, c)| (EntityHandle { index: e.id(), generation: e.gen().id() }, ComponentValue::LeftMover(*c)),
    ).collect()
}

/// A join of the entities with the `Player` storage, collected: one row for
/// each entity that carries the marker, by ascending slot.
#[verifier::external_body]
pub(crate) fn player_rows(w: &specs::World) -> (rows: Vec<(EntityHandle, ComponentValue)>)
    requires
        world_ready(*w),
        world_view(*w).slots_in_range(),
        world_kinds(*w).contains(ComponentKind::Player),
    ensures
        is_table(rows@, world_components(*w), ComponentKind::Player),
{
    let entities = w.entities();
    let storage = w.read_storage::<Player>();
    (&entities, &storage).join().map(
        |(e, c)| (EntityHandle { index: e.id(), generation: e.gen().id() }, ComponentValue::Player(*c)),
    ).collect()
}

/// `specs::storage::Storage::get` on the `Position` storage: the position
/// that a living entity carries, or `None` where it carries none.
#[verifier::external_body]
pub(crate) fn position_at(w: &specs::World, e: EntityHandle) -> (found: Option<Position>)
    requires
        world_ready(*w),
        world_kinds(*w).contains(ComponentKind::Position),
        world_entities(*w).contains(e),
    ensures
        match found {
            Some(p) => world_components(*w).contains_key((e, ComponentKind::Position))
                && world_components(*w)[(e, ComponentKind::Position)]
                == ComponentValue::Position(p),
            None => !world_components(*w).contains_key((e, ComponentKind::Position)),
        },
{
    let target = w.entities().entity(e.index);
    w.read_storage::<Position>().get(target).copied()
}

/// `specs::world::EntitiesRes::delete`: a living entity is marked, to leave
/// at the next `maintain`; until then nothing that is read changes.
#[verifier::external_body]
pub(crate) fn mark_destroyed(w: &mut specs::World, e: EntityHandle)
    requires
        world_ready(*old(w)),
        world_view(*old(w)).slots_in_range(),
        world_entities(*old(w)).contains(e),
    ensures
        world_ready(*final(w)),
        world_view(*final(w)) == world_view(*old(w)).mark(e),
{
    let target = w.entities().entity(e.index);
    let _ = w.entities().delete(target);
}

/// `specs::WorldExt::maintain`: the marked entities leave, with every
/// component they carried, and no mark is left; then the lazy insertions run
/// in the order of the queue, each giving its component to its entity if
/// that entity is still alive, and the queue is empty. A lazy insertion
/// panics where its kind has no storage.
#[verifier::external_body]
pub(crate) fn maintain(w: &mut specs::World)
    requires
        world_ready(*old(w)),
        world_view(*old(w)).pending_registered(),
    ensures
        world_ready(*final(w)),
        world_view(*final(w)) == world_view(*old(w)).maintain(),
{
    w.maintain();
}

/// `shred::World::insert` with a vector of tiles: the world then holds these
/// tiles as its resource, in place of any it held.
#[verifier::external_body]
pub(crate) fn insert_tiles(w: &mut specs::World, tiles: Vec<TileType>)
    requires
        world_ready(*old(w)),
    ensures
        world_ready(*final(w)),
        world_view(*final(w)) == world_view(*old(w)).with_tiles(tiles@),
{
    w.insert(tiles);
}

/// `shred::World::try_fetch` for the vector of tiles, copied out: the tiles
/// that the world holds, or `None` where none were inserted.
#[verifier::external_body]
pub(crate) fn fetch_tiles(w: &specs::World) -> (found: Option<Vec<TileType>>)
    requires
        world_ready(*w),
    ensures
        match found {
            Some(tiles) => world_tiles(*w) == Some(tiles@),
            None => world_tiles(*w).is_none(),
        },
{
    w.try_fetch::<Vec<TileType>>().map(|tiles| (*tiles).clone())
}

} // verus!
