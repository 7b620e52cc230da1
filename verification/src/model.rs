//! The mathematical model of the store: what it holds, and what each
//! operation makes of it.

use vstd::prelude::*;
use crate::error::StoreError;
use crate::components::{
    spec_slot_limit, ComponentKind, ComponentValue, EntityHandle, Position, Renderable, TileType,
    GRID_WIDTH,
};

verus! {

/// Where an entity at `p` stands after one step to the left: one cell less
/// in `x`, or the last column when that would leave the grid; `y` is kept.
pub open spec fn step_left_spec(p: Position) -> Position {
    Position { x: if p.x - 1 < 0 { (GRID_WIDTH - 1) as i32 } else { (p.x - 1) as i32 }, y: p.y }
}

/// Whether `rows` lists the table of `kind` in `components`: one row for each
/// entity that carries the kind, with the value it carries, by ascending
/// slot.
pub open spec fn is_table(
    rows: Seq<(EntityHandle, ComponentValue)>,
    components: Map<(EntityHandle, ComponentKind), ComponentValue>,
    kind: ComponentKind,
) -> bool {
    &&& forall|i: int, j: int|
        0 <= i < j < rows.len() ==> (#[trigger] rows[i]).0.index < (#[trigger] rows[j]).0.index
    &&& forall|i: int|
        0 <= i < rows.len() ==> components.contains_key(((#[trigger] rows[i]).0, kind))
            && components[(rows[i].0, kind)] == rows[i].1
    &&& forall|e: EntityHandle| #[trigger]
        components.contains_key((e, kind)) ==> exists|i: int|
            0 <= i < rows.len() && (#[trigger] rows[i]).0 == e
}

/// An entity as the display draws it: where, and with which glyph and
/// colours.
#[derive(Clone, Copy, Debug, PartialEq, Eq, Structural)]
pub struct Sprite {
    pub entity: EntityHandle,
    pub position: Position,
    pub renderable: Renderable,
}

/// Whether `sprites` lists what `components` gives to draw: one sprite for
/// each entity that carries both a position and a renderable, with the
/// values it carries, by ascending slot.
pub open spec fn is_sprite_list(
    sprites: Seq<Sprite>,
    components: Map<(EntityHandle, ComponentKind), ComponentValue>,
) -> bool {
    &&& forall|i: int, j: int|
        0 <= i < j < sprites.len() ==> (#[trigger] sprites[i]).entity.index
            < (#[trigger] sprites[j]).entity.index
    &&& forall|i: int|
        0 <= i < sprites.len() ==> {
            let s = #[trigger] sprites[i];
            &&& components.contains_key((s.entity, ComponentKind::Position))
            &&& components[(s.entity, ComponentKind::Position)] == ComponentValue::Position(
                s.position,
            )
            &&& components.contains_key((s.entity, ComponentKind::Renderable))
            &&& components[(s.entity, ComponentKind::Renderable)] == ComponentValue::Renderable(
                s.renderable,
            )
        }
    &&& forall|e: EntityHandle|
        #![trigger components.contains_key((e, ComponentKind::Position))]
        #![trigger components.contains_key((e, ComponentKind::Renderable))]
        components.contains_key((e, ComponentKind::Position)) && components.contains_key(
            (e, ComponentKind::Renderable),
        ) ==> exists|i: int| 0 <= i < sprites.len() && (#[trigger] sprites[i]).entity == e
}

/// What a store holds.
pub struct StoreModel {
    /// The component kinds that were registered.
    pub kinds: Set<ComponentKind>,
    /// The entities that reads and writes see.
    pub entities: Set<EntityHandle>,
    /// The entities marked for removal at the next barrier.
    pub doomed: Set<EntityHandle>,
    /// The component tables: the value that an entity carries of a kind.
    pub components: Map<(EntityHandle, ComponentKind), ComponentValue>,
    /// The map resource, once it was inserted.
    pub tiles: Option<Seq<TileType>>,
    /// How many entities were created so far, those that left included.
    pub spawned: nat,
    /// The deferred attachments, in the order in which they were asked for:
    /// the barrier commits them.
    pub pending: Seq<(EntityHandle, ComponentValue)>,
}

impl StoreModel {
    /// The store that holds nothing.
    pub open spec fn empty() -> StoreModel {
        StoreModel {
            kinds: Set::empty(),
            entities: Set::empty(),
            doomed: Set::empty(),
            components: Map::empty(),
            tiles: None,
            spawned: 0,
            pending: Seq::empty(),
        }
    }

    /// Every entity of the store sits in a slot that the store can address.
    pub open spec fn slots_in_range(self) -> bool {
        forall|e: EntityHandle| #[trigger] self.entities.contains(e) ==> e.index < spec_slot_limit()
    }

    /// Every deferred attachment is of a registered kind.
    pub open spec fn pending_registered(self) -> bool {
        forall|i: int|
            0 <= i < self.pending.len() ==> self.kinds.contains(
                (#[trigger] self.pending[i]).1.spec_kind(),
            )
    }

    /// Whether a deferred attachment of `kind` to `e` waits for the barrier.
    pub open spec fn awaits(self, e: EntityHandle, kind: ComponentKind) -> bool {
        exists|i: int|
            0 <= i < self.pending.len() && (#[trigger] self.pending[i]).0 == e
                && self.pending[i].1.spec_kind() == kind
    }

    /// Every marked entity is in the store, every component belongs to an
    /// entity of the store and lies in the table of its own, registered,
    /// kind, no two entities share a slot, every slot can be addressed, and
    /// every deferred attachment is of a registered kind.
    pub open spec fn well_formed(self) -> bool {
        &&& self.slots_in_range()
        &&& self.pending_registered()
        &&& self.doomed.subset_of(self.entities)
        &&& forall|k: (EntityHandle, ComponentKind)| #[trigger]
            self.components.contains_key(k) ==> {
                &&& self.entities.contains(k.0)
                &&& self.kinds.contains(k.1)
                &&& self.components[k].spec_kind() == k.1
            }
        &&& forall|a: EntityHandle, b: EntityHandle|
            #![trigger self.entities.contains(a), self.entities.contains(b)]
            self.entities.contains(a) && self.entities.contains(b) && a.index == b.index ==> a
                == b
    }

    /// Whether `e` carries a component of `kind`.
    pub open spec fn has(self, e: EntityHandle, kind: ComponentKind) -> bool {
        self.components.contains_key((e, kind))
    }

    /// The position of `e`, where it has one.
    pub open spec fn position_of(self, e: EntityHandle) -> Option<Position> {
        if self.has(e, ComponentKind::Position) {
            match self.components[(e, ComponentKind::Position)] {
                ComponentValue::Position(p) => Some(p),
                _ => None,
            }
        } else {
            None
        }
    }

    /// Why the store refuses to read the table of `kind`: the kind was never
    /// registered.
    pub open spec fn kind_refusal(self, kind: ComponentKind) -> Option<StoreError> {
        if self.kinds.contains(kind) {
            None
        } else {
            Some(StoreError::UnregisteredComponent)
        }
    }

    /// Why the store refuses to act on `e`: it names no entity of the store.
    pub open spec fn live_refusal(self, e: EntityHandle) -> Option<StoreError> {
        if self.entities.contains(e) {
            None
        } else {
            Some(StoreError::StaleEntityHandle)
        }
    }

    /// Why the store refuses `c` for `e`: the kind of `c` was never
    /// registered, or else `e` names no entity of the store.
    pub open spec fn attach_refusal(self, e: EntityHandle, c: ComponentValue) -> Option<
        StoreError,
    > {
        if self.kind_refusal(c.spec_kind()).is_some() {
            self.kind_refusal(c.spec_kind())
        } else {
            self.live_refusal(e)
        }
    }

    /// The store after `kind` was registered.
    pub open spec fn register(self, kind: ComponentKind) -> StoreModel {
        StoreModel { kinds: self.kinds.insert(kind), ..self }
    }

    /// The store after all four kinds were registered.
    pub open spec fn register_all(self) -> StoreModel {
        self.register(ComponentKind::Position).register(ComponentKind::Renderable).register(
            ComponentKind::LeftMover,
        ).register(ComponentKind::Player)
    }

    /// Whether the store has room for one more entity: every entity ever
    /// created may have taken a slot of its own, and the store addresses no
    /// more than `slot_limit` of them.
    pub open spec fn has_room(self) -> bool {
        self.spawned < spec_slot_limit()
    }

    /// The store after the entity `e` was created.
    pub open spec fn spawn(self, e: EntityHandle) -> StoreModel {
        StoreModel { entities: self.entities.insert(e), spawned: self.spawned + 1, ..self }
    }

    /// The store after `e` was given the component `c`, in place of any
    /// value of that kind that it had.
    pub open spec fn attach(self, e: EntityHandle, c: ComponentValue) -> StoreModel {
        StoreModel { components: self.components.insert((e, c.spec_kind()), c), ..self }
    }

    /// The store after `e` was marked for removal.
    pub open spec fn mark(self, e: EntityHandle) -> StoreModel {
        StoreModel { doomed: self.doomed.insert(e), ..self }
    }

    /// The store after an attachment of `c` to `e` was deferred: nothing
    /// that is read changes until the barrier.
    pub open spec fn defer(self, e: EntityHandle, c: ComponentValue) -> StoreModel {
        StoreModel { pending: self.pending.push((e, c)), ..self }
    }

    /// The store after the marked entities left, and their components with
    /// them.
    pub open spec fn swept(self) -> StoreModel {
        StoreModel {
            entities: self.entities.difference(self.doomed),
            doomed: Set::empty(),
            components: Map::new(
                |k: (EntityHandle, ComponentKind)|
                    self.components.contains_key(k) && !self.doomed.contains(k.0),
                |k: (EntityHandle, ComponentKind)| self.components[k],
            ),
            ..self
        }
    }

    /// The store after one deferred attachment was committed: the entity
    /// carries the component if it is in the store, and else nothing
    /// changes.
    pub open spec fn commit_one(self, row: (EntityHandle, ComponentValue)) -> StoreModel {
        if self.entities.contains(row.0) {
            self.attach(row.0, row.1)
        } else {
            self
        }
    }

    /// The store after the attachments in `rows` were committed, first to
    /// last.
    pub open spec fn committed(self, rows: Seq<(EntityHandle, ComponentValue)>) -> StoreModel
        decreases rows.len(),
    {
        if rows.len() == 0 {
            self
        } else {
            self.committed(rows.drop_last()).commit_one(rows.last())
        }
    }

    /// The store after the barrier: the marked entities are gone, and their
    /// components with them; then the deferred attachments are committed in
    /// their order, and none is left waiting.
    pub open spec fn maintain(self) -> StoreModel {
        StoreModel { pending: Seq::empty(), ..self.swept().committed(self.pending) }
    }

    /// The store after the map resource was set to `tiles`.
    pub open spec fn with_tiles(self, tiles: Seq<TileType>) -> StoreModel {
        StoreModel { tiles: Some(tiles), ..self }
    }

    /// Whether the movement system moves `e`: it carries both the marker
    /// and a position.
    pub open spec fn walks_left(self, e: EntityHandle) -> bool {
        self.has(e, ComponentKind::LeftMover) && self.has(e, ComponentKind::Position)
    }

    /// The component under `k` after the movement system ran.
    pub open spec fn moved_value(self, k: (EntityHandle, ComponentKind)) -> ComponentValue {
        match self.components[k] {
            ComponentValue::Position(p) => if self.walks_left(k.0) {
                ComponentValue::Position(step_left_spec(p))
            } else {
                self.components[k]
            },
            other => other,
        }
    }

    /// The store after the movement system ran: each entity that walks left
    /// made one step, and nothing else changed.
    pub open spec fn moved(self) -> StoreModel {
        StoreModel {
            components: Map::new(
                |k: (EntityHandle, ComponentKind)| self.components.contains_key(k),
                |k: (EntityHandle, ComponentKind)| self.moved_value(k),
            ),
            ..self
        }
    }

    /// The store after the movement system has visited the entities in
    /// `visited` and no others.
    pub open spec fn moved_among(self, visited: Set<EntityHandle>) -> StoreModel {
        StoreModel {
            components: Map::new(
                |k: (EntityHandle, ComponentKind)| self.components.contains_key(k),
                |k: (EntityHandle, ComponentKind)|
                    if visited.contains(k.0) {
                        self.moved_value(k)
                    } else {
                        self.components[k]
                    },
            ),
            ..self
        }
    }

    /// The store after one tick's systems and the barrier.
    pub open spec fn ticked(self) -> StoreModel {
        self.moved().maintain()
    }

    /// Why the store refuses to give a frame to draw: no map was inserted,
    /// or else positions or renderables were never registered.
    pub open spec fn snapshot_refusal(self) -> Option<StoreError> {
        if self.tiles.is_none() {
            Some(StoreError::ResourceMissing)
        } else if self.kind_refusal(ComponentKind::Position).is_some() {
            self.kind_refusal(ComponentKind::Position)
        } else {
            self.kind_refusal(ComponentKind::Renderable)
        }
    }

    /// Why the store refuses to run the systems: a kind that the movement
    /// system reads or writes was never registered.
    pub open spec fn systems_refusal(self) -> Option<StoreError> {
        if self.kind_refusal(ComponentKind::LeftMover).is_some() {
            self.kind_refusal(ComponentKind::LeftMover)
        } else {
            self.kind_refusal(ComponentKind::Position)
        }
    }

    /// Why the store refuses to make a tick: the systems do not run, or
    /// else the store gives no frame.
    pub open spec fn tick_refusal(self) -> Option<StoreError> {
        if self.systems_refusal().is_some() {
            self.systems_refusal()
        } else {
            self.snapshot_refusal()
        }
    }

    /// Registering a kind twice leaves the store as registering it once.
    pub proof fn lemma_register_idempotent(self, kind: ComponentKind)
        ensures
            self.register(kind).register(kind) == self.register(kind),
    {
        assert(self.kinds.insert(kind).insert(kind) =~= self.kinds.insert(kind));
    }

    /// Registering changes neither the entities nor what they carry, and
    /// keeps every kind that was registered.
    pub proof fn lemma_register_keeps(self, kind: ComponentKind)
        ensures
            self.register(kind).entities == self.entities,
            self.register(kind).components == self.components,
            self.kinds.subset_of(self.register(kind).kinds),
            self.well_formed() ==> self.register(kind).well_formed(),
    {
    }

    /// Committing deferred attachments changes nothing but components.
    pub proof fn lemma_committed_frame(self, rows: Seq<(EntityHandle, ComponentValue)>)
        ensures
            self.committed(rows).kinds == self.kinds,
            self.committed(rows).entities == self.entities,
            self.committed(rows).doomed == self.doomed,
            self.committed(rows).tiles == self.tiles,
            self.committed(rows).spawned == self.spawned,
            self.committed(rows).pending == self.pending,
        decreases rows.len(),
    {
        if rows.len() > 0 {
            self.lemma_committed_frame(rows.drop_last());
        }
    }

    /// Committing deferred attachments leaves alone what no attachment is
    /// for: a component of an entity that is not in the store, and one of a
    /// kind that no attachment to its entity is of.
    pub proof fn lemma_committed_keeps(
        self,
        rows: Seq<(EntityHandle, ComponentValue)>,
        e: EntityHandle,
        kind: ComponentKind,
    )
        requires
            !self.entities.contains(e) || forall|i: int|
                0 <= i < rows.len() ==> !((#[trigger] rows[i]).0 == e && rows[i].1.spec_kind()
                    == kind),
        ensures
            self.committed(rows).has(e, kind) == self.has(e, kind),
            self.has(e, kind) ==> self.committed(rows).components[(e, kind)] == self.components[(
                e,
                kind,
            )],
        decreases rows.len(),
    {
        if rows.len() > 0 {
            let front = rows.drop_last();
            assert forall|i: int| 0 <= i < front.len() implies front[i] == rows[i] by {}
            self.lemma_committed_keeps(front, e, kind);
            self.lemma_committed_frame(front);
            assert(rows.last() == rows[rows.len() - 1]);
        }
    }

    /// Committing deferred attachments of registered kinds keeps a store
    /// well formed.
    pub proof fn lemma_committed_well_formed(self, rows: Seq<(EntityHandle, ComponentValue)>)
        requires
            self.well_formed(),
            forall|i: int|
                0 <= i < rows.len() ==> self.kinds.contains((#[trigger] rows[i]).1.spec_kind()),
        ensures
            self.committed(rows).well_formed(),
        decreases rows.len(),
    {
        if rows.len() > 0 {
            let front = rows.drop_last();
            assert forall|i: int| 0 <= i < front.len() implies front[i] == rows[i] by {}
            self.lemma_committed_well_formed(front);
            self.lemma_committed_frame(front);
            assert(rows.last() == rows[rows.len() - 1]);
        }
    }

    /// The attachment that was deferred last is the one that stands after
    /// the commit, where its entity is in the store.
    pub proof fn lemma_committed_last(self, rows: Seq<(EntityHandle, ComponentValue)>)
        requires
            rows.len() > 0,
            self.entities.contains(rows.last().0),
        ensures
            self.committed(rows).has(rows.last().0, rows.last().1.spec_kind()),
            self.committed(rows).components[(rows.last().0, rows.last().1.spec_kind())]
                == rows.last().1,
    {
        self.lemma_committed_frame(rows.drop_last());
    }

    /// A marked entity is seen by every read and write until the barrier,
    /// the movement system included, and by none after it; a deferred
    /// attachment does not bring it back.
    pub proof fn lemma_deferred_destruction(self, e: EntityHandle)
        requires
            self.well_formed(),
            self.entities.contains(e),
        ensures
            self.mark(e).entities == self.entities,
            self.mark(e).components == self.components,
            self.mark(e).moved().entities.contains(e),
            self.mark(e).moved().components == self.moved().components,
            !self.mark(e).maintain().entities.contains(e),
            forall|kind: ComponentKind| !(#[trigger] self.mark(e).maintain().has(e, kind)),
            !self.mark(e).ticked().entities.contains(e),
            forall|kind: ComponentKind| !(#[trigger] self.mark(e).ticked().has(e, kind)),
    {
        assert(self.mark(e).moved().components =~= self.moved().components);
        let marked = self.mark(e);
        let walked = self.mark(e).moved();
        marked.swept().lemma_committed_frame(marked.pending);
        walked.swept().lemma_committed_frame(walked.pending);
        assert forall|kind: ComponentKind| !(#[trigger] marked.maintain().has(e, kind)) by {
            marked.swept().lemma_committed_keeps(marked.pending, e, kind);
        }
        assert forall|kind: ComponentKind| !(#[trigger] marked.ticked().has(e, kind)) by {
            walked.swept().lemma_committed_keeps(walked.pending, e, kind);
        }
    }

    /// A deferred attachment is not seen before the barrier and is seen
    /// after it, as it was given, where its entity is in the store and not
    /// marked: the systems of the tick that commits it do not act on it.
    pub proof fn lemma_deferred_attach(self, e: EntityHandle, c: ComponentValue)
        requires
            self.entities.contains(e),
            !self.doomed.contains(e),
        ensures
            self.defer(e, c).entities == self.entities,
            self.defer(e, c).components == self.components,
            self.defer(e, c).moved().components == self.moved().components,
            self.defer(e, c).maintain().has(e, c.spec_kind()),
            self.defer(e, c).maintain().components[(e, c.spec_kind())] == c,
            self.defer(e, c).ticked().has(e, c.spec_kind()),
            self.defer(e, c).ticked().components[(e, c.spec_kind())] == c,
            self.defer(e, c).maintain().pending.len() == 0,
    {
        assert(self.defer(e, c).moved().components =~= self.moved().components);
        let asked = self.defer(e, c);
        let walked = self.defer(e, c).moved();
        assert(asked.pending.last() == (e, c));
        assert(walked.pending.last() == (e, c));
        asked.swept().lemma_committed_last(asked.pending);
        walked.swept().lemma_committed_last(walked.pending);
    }

    /// The barrier touches no component of an entity that was not marked,
    /// unless an attachment of that kind was deferred for it: the entity
    /// stays, and carries the component it carried.
    pub proof fn lemma_maintain_spares(self, e: EntityHandle, kind: ComponentKind)
        requires
            !self.doomed.contains(e),
            !self.awaits(e, kind),
        ensures
            self.maintain().entities.contains(e) == self.entities.contains(e),
            self.maintain().has(e, kind) == self.has(e, kind),
            self.has(e, kind) ==> self.maintain().components[(e, kind)] == self.components[(e, kind)],
    {
        self.swept().lemma_committed_frame(self.pending);
        self.swept().lemma_committed_keeps(self.pending, e, kind);
    }

    /// The barrier changes nothing but the entities and their components:
    /// the unmarked entities stay, no entity is left marked and no
    /// attachment waiting.
    pub proof fn lemma_maintain_frame(self)
        ensures
            self.maintain().kinds == self.kinds,
            self.maintain().tiles == self.tiles,
            self.maintain().spawned == self.spawned,
            self.maintain().entities == self.entities.difference(self.doomed),
            self.maintain().doomed == Set::<EntityHandle>::empty(),
            self.maintain().pending.len() == 0,
    {
        self.swept().lemma_committed_frame(self.pending);
    }

    /// The barrier keeps a store well formed.
    pub proof fn lemma_maintain_well_formed(self)
        requires
            self.well_formed(),
        ensures
            self.maintain().well_formed(),
    {
        self.swept().lemma_committed_frame(self.pending);
        self.swept().lemma_committed_well_formed(self.pending);
    }

    /// The movement system keeps a store well formed: it changes neither
    /// the entities nor which components they carry.
    pub proof fn lemma_moved_well_formed(self)
        requires
            self.well_formed(),
        ensures
            self.moved().well_formed(),
            self.moved().entities == self.entities,
            self.moved().components.dom() == self.components.dom(),
    {
        assert(self.moved().components.dom() =~= self.components.dom());
    }

    /// An entity that walks left from a column of the grid stands, after
    /// the movement system ran, one column to the left, counted around the
    /// grid, in the same row; and so after the whole tick, unless it was
    /// marked for removal or a position was deferred for it.
    pub proof fn lemma_wraparound(self, e: EntityHandle, p: Position)
        requires
            self.has(e, ComponentKind::LeftMover),
            self.position_of(e) == Some(p),
            0 <= p.x < GRID_WIDTH,
        ensures
            self.moved().position_of(e) == Some(
                Position { x: ((p.x - 1 + GRID_WIDTH) % (GRID_WIDTH as int)) as i32, y: p.y },
            ),
            !self.doomed.contains(e) && !self.awaits(e, ComponentKind::Position)
                ==> self.ticked().position_of(e) == self.moved().position_of(e),
    {
        if !self.doomed.contains(e) && !self.awaits(e, ComponentKind::Position) {
            assert(self.moved().pending == self.pending);
            self.moved().lemma_maintain_spares(e, ComponentKind::Position);
        }
    }

    /// Once inside the grid, an entity that walks left stays inside it.
    pub proof fn lemma_stays_in_grid(self, e: EntityHandle, p: Position)
        requires
            self.position_of(e) == Some(p),
            0 <= p.x < GRID_WIDTH,
        ensures
            self.moved().position_of(e) is Some,
            0 <= self.moved().position_of(e).unwrap().x < GRID_WIDTH,
            self.moved().position_of(e).unwrap().y == p.y,
    {
    }

    /// The movement system leaves alone every entity that lacks the marker
    /// or a position: it carries what it carried; and so after the whole
    /// tick, unless it was marked for removal or an attachment of that kind
    /// was deferred for it.
    pub proof fn lemma_movement_isolation(self, e: EntityHandle, kind: ComponentKind)
        requires
            !self.walks_left(e),
        ensures
            self.moved().has(e, kind) == self.has(e, kind),
            self.has(e, kind) ==> self.moved().components[(e, kind)] == self.components[(e, kind)],
            !self.doomed.contains(e) && !self.awaits(e, kind) ==> self.ticked().has(e, kind)
                == self.has(e, kind),
            !self.doomed.contains(e) && !self.awaits(e, kind) && self.has(e, kind)
                ==> self.ticked().components[(e, kind)] == self.components[(e, kind)],
    {
        if !self.doomed.contains(e) && !self.awaits(e, kind) {
            assert(self.moved().pending == self.pending);
            self.moved().lemma_maintain_spares(e, kind);
        }
    }
}

} // verus!
