//! The movement system: entities that carry the `LeftMover` marker walk one
//! cell to the left on every tick and come back in at the last column.

use vstd::prelude::*;
use crate::components::{
    ComponentKind, ComponentValue, EntityHandle, Position, GRID_WIDTH,
};
use crate::model::{is_table, step_left_spec, StoreModel};
use crate::world::{
    attach_position, left_mover_rows, position_at, world_kinds, world_ready, world_view,
};

verus! {

/// One step to the left from `p`, wrapping at the left edge of the grid.
pub fn step_left(p: Position) -> (q: Position)
    ensures
        q == step_left_spec(p),
        q.y == p.y,
        0 <= p.x < GRID_WIDTH ==> q.x == (p.x - 1 + GRID_WIDTH) % (GRID_WIDTH as int),
        0 <= p.x <= GRID_WIDTH ==> 0 <= q.x < GRID_WIDTH,
{
    if p.x <= 0 {
        Position { x: GRID_WIDTH - 1, y: p.y }
    } else {
        Position { x: p.x - 1, y: p.y }
    }
}

/// The system that moves the entities marked `LeftMover`.
pub struct LeftWalker {}

impl LeftWalker {
    /// The component kinds that the system reads without changing them.
    pub open spec fn reads() -> Set<ComponentKind> {
        set![ComponentKind::LeftMover]
    }

    /// The component kinds that the system may change.
    pub open spec fn writes() -> Set<ComponentKind> {
        set![ComponentKind::Position]
    }

    /// Runs the system once over `ecs`: every entity that carries both the
    /// marker and a position makes one step to the left; no other component
    /// and no other part of the store changes.
    pub fn run(&mut self, ecs: &mut specs::World)
        requires
            world_ready(*old(ecs)),
            world_view(*old(ecs)).well_formed(),
            world_kinds(*old(ecs)).contains(ComponentKind::LeftMover),
            world_kinds(*old(ecs)).contains(ComponentKind::Position),
        ensures
            world_ready(*final(ecs)),
            world_view(*final(ecs)) == world_view(*old(ecs)).moved(),
    {
        let ghost before = world_view(*ecs);
        let movers = left_mover_rows(ecs);
        let ghost rows = movers@;
        let ghost mut visited: Set<EntityHandle> = Set::empty();
        assert(world_view(*ecs) =~= before.moved_among(visited)) by {
            assert(before.components =~= before.moved_among(visited).components);
        }
        let mut i: usize = 0;
        while i < movers.len()
            invariant
                0 <= i <= movers.len(),
                rows == movers@,
                is_table(rows, before.components, ComponentKind::LeftMover),
                before.well_formed(),
                before.kinds.contains(ComponentKind::Position),
                world_ready(*ecs),
                world_view(*ecs) == before.moved_among(visited),
                forall|j: int| 0 <= j < i ==> visited.contains((#[trigger] rows[j]).0),
                forall|h: EntityHandle| #[trigger]
                    visited.contains(h) ==> before.has(h, ComponentKind::LeftMover) && (i
                        < rows.len() ==> h.index < rows[i as int].0.index),
            decreases movers.len() - i,
        {
            let e = movers[i].0;
            assert(rows[i as int].0 == e);
            assert(before.components.contains_key((e, ComponentKind::LeftMover)));
            assert(before.entities.contains(e));
            assert(!visited.contains(e));
            let ghost current = world_view(*ecs);
            let ghost grown = visited.insert(e);
            match position_at(ecs, e) {
                Some(p) => {
                    let q = step_left(p);
                    attach_position(ecs, e, q);
                    proof {
                        let k = (e, ComponentKind::Position);
                        assert(before.components[k] == ComponentValue::Position(p));
                        assert(before.walks_left(e));
                        assert(before.moved_value(k) == ComponentValue::Position(q));
                        assert(world_view(*ecs).components =~= before.moved_among(
                            grown,
                        ).components);
                    }
                },
                None => {
                    proof {
                        assert(!before.components.contains_key((e, ComponentKind::Position)));
                        assert(current.components =~= before.moved_among(grown).components);
                    }
                },
            }
            proof {
                visited = grown;
                assert forall|h: EntityHandle| #[trigger] visited.contains(h) implies before.has(
                    h,
                    ComponentKind::LeftMover,
                ) && (i + 1 < rows.len() ==> h.index < rows[i + 1].0.index) by {
                    if i + 1 < rows.len() {
                        assert(rows[i as int].0.index < rows[i + 1].0.index);
                    }
                }
            }
            i = i + 1;
        }
        proof {
            assert forall|h: EntityHandle| before.has(h, ComponentKind::LeftMover) implies visited.contains(
                h,
            ) by {
                let j = choose|j: int| 0 <= j < rows.len() && (#[trigger] rows[j]).0 == h;
                assert(visited.contains(rows[j].0));
            }
            assert(before.moved_among(visited).components =~= before.moved().components);
        }
    }

    /// The system keeps to what it declares: a component of a kind that it
    /// does not write is after a run what it was before.
    pub proof fn lemma_writes_declared_kinds_only(
        v: StoreModel,
        e: EntityHandle,
        kind: ComponentKind,
    )
        requires
            v.well_formed(),
            !Self::writes().contains(kind),
        ensures
            v.moved().has(e, kind) == v.has(e, kind),
            v.has(e, kind) ==> v.moved().components[(e, kind)] == v.components[(e, kind)],
    {
    }

    /// The system reads no more than it declares: on two stores that carry
    /// the same markers and positions, it leaves the same positions.
    pub proof fn lemma_reads_declared_kinds_only(a: StoreModel, b: StoreModel, e: EntityHandle)
        requires
            forall|h: EntityHandle, kind: ComponentKind|
                Self::reads().contains(kind) || Self::writes().contains(kind) ==> (
                #[trigger] a.has(h, kind)) == b.has(h, kind) && (a.has(h, kind)
                    ==> a.components[(h, kind)] == b.components[(h, kind)]),
        ensures
            a.moved().position_of(e) == b.moved().position_of(e),
    {
        assert(a.has(e, ComponentKind::Position) == b.has(e, ComponentKind::Position));
        assert(a.has(e, ComponentKind::LeftMover) == b.has(e, ComponentKind::LeftMover));
    }
}

} // verus!
