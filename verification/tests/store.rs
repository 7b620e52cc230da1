use warhorn::{
    slot_limit, step_left, Color, ComponentKind, ComponentValue, EntityHandle, LeftMover, Player, Position,
    Renderable, State, StoreError, TileType, GRID_WIDTH,
};

fn glyph(code: u16) -> Renderable {
    Renderable {
        glyph: code,
        fg: Color { r: 255, g: 255, b: 0 },
        bg: Color { r: 0, g: 0, b: 0 },
    }
}

fn position_of(state: &State, e: EntityHandle) -> Option<Position> {
    state.position_of(e).unwrap()
}

fn spawn_at(state: &mut State, x: i32, y: i32) -> EntityHandle {
    let e = state.create_entity();
    state.attach(e, ComponentValue::Position(Position { x, y })).unwrap();
    e
}

fn spawn_walker(state: &mut State, x: i32, y: i32) -> EntityHandle {
    let e = spawn_at(state, x, y);
    state.attach(e, ComponentValue::Renderable(glyph(1))).unwrap();
    state.attach(e, ComponentValue::LeftMover(LeftMover {})).unwrap();
    e
}

#[test]
fn step_left_wraps_around_for_every_column() {
    for x0 in 0..GRID_WIDTH {
        let q = step_left(Position { x: x0, y: 7 });
        assert_eq!(q.x, (x0 - 1 + GRID_WIDTH) % GRID_WIDTH);
        assert_eq!(q.y, 7);
    }
}

#[test]
fn step_left_from_column_zero_lands_on_last_column() {
    assert_eq!(step_left(Position { x: 0, y: 3 }), Position { x: 79, y: 3 });
    assert_eq!(step_left(Position { x: 0, y: -5 }), Position { x: 79, y: -5 });
}

#[test]
fn step_left_exact_values() {
    assert_eq!(step_left(Position { x: 1, y: 0 }), Position { x: 0, y: 0 });
    assert_eq!(step_left(Position { x: 79, y: 49 }), Position { x: 78, y: 49 });
    assert_eq!(step_left(Position { x: 200, y: 1 }), Position { x: 199, y: 1 });
    assert_eq!(step_left(Position { x: -4, y: 1 }), Position { x: 79, y: 1 });
    assert_eq!(step_left(Position { x: i32::MIN, y: 1 }), Position { x: 79, y: 1 });
}

#[test]
fn one_tick_moves_the_walkers_and_not_the_player() {
    let mut state = State::new();
    let player = spawn_at(&mut state, 40, 25);
    state.attach(player, ComponentValue::Renderable(glyph(64))).unwrap();
    state.attach(player, ComponentValue::Player(Player {})).unwrap();
    let mut walkers = Vec::new();
    for i in 0..10 {
        walkers.push(spawn_walker(&mut state, i * 7, 20));
    }
    assert_eq!(state.run_systems(), Ok(()));
    let expected = [79, 6, 13, 20, 27, 34, 41, 48, 55, 62];
    for (walker, x) in walkers.iter().zip(expected.iter()) {
        assert_eq!(position_of(&state, *walker), Some(Position { x: *x, y: 20 }));
    }
    assert_eq!(position_of(&state, player), Some(Position { x: 40, y: 25 }));
}

#[test]
fn walker_at_column_zero_wraps_in_the_store() {
    let mut state = State::new();
    let e = spawn_walker(&mut state, 0, 11);
    state.run_systems().unwrap();
    assert_eq!(position_of(&state, e), Some(Position { x: GRID_WIDTH - 1, y: 11 }));
    state.run_systems().unwrap();
    assert_eq!(position_of(&state, e), Some(Position { x: GRID_WIDTH - 2, y: 11 }));
}

#[test]
fn registering_twice_is_registering_once() {
    let mut once = State::empty();
    once.register(ComponentKind::Position);
    let mut twice = State::empty();
    twice.register(ComponentKind::Position);
    let e = spawn_at(&mut twice, 3, 4);
    twice.register(ComponentKind::Position);
    assert!(twice.is_registered(ComponentKind::Position));
    assert!(!twice.is_registered(ComponentKind::Renderable));
    assert_eq!(once.is_registered(ComponentKind::Position), true);
    assert_eq!(once.is_registered(ComponentKind::Renderable), false);
    assert_eq!(position_of(&twice, e), Some(Position { x: 3, y: 4 }));
    assert_eq!(twice.read_all(ComponentKind::Position).unwrap().len(), 1);
}

#[test]
fn marked_entity_is_seen_until_the_barrier_and_never_after() {
    let mut state = State::new();
    let e = spawn_walker(&mut state, 5, 5);
    let other = spawn_walker(&mut state, 9, 9);
    assert_eq!(state.mark_destroyed(e), Ok(()));
    assert!(state.is_alive(e));
    assert_eq!(position_of(&state, e), Some(Position { x: 5, y: 5 }));
    assert_eq!(state.read_all(ComponentKind::LeftMover).unwrap().len(), 2);
    assert_eq!(state.attach(e, ComponentValue::Position(Position { x: 6, y: 5 })), Ok(()));
    assert_eq!(position_of(&state, e), Some(Position { x: 6, y: 5 }));
    state.maintain();
    assert!(!state.is_alive(e));
    assert!(state.is_alive(other));
    assert_eq!(position_of(&state, e), None);
    for kind in [
        ComponentKind::Position,
        ComponentKind::Renderable,
        ComponentKind::LeftMover,
        ComponentKind::Player,
    ] {
        let rows = state.read_all(kind).unwrap();
        assert!(rows.iter().all(|row| row.0 != e));
    }
    assert_eq!(state.read_all(ComponentKind::Position).unwrap().len(), 1);
    assert_eq!(position_of(&state, other), Some(Position { x: 9, y: 9 }));
}

#[test]
fn marked_walker_still_moves_in_its_last_tick() {
    let mut state = State::new();
    state.insert_resource(vec![TileType::Floor; 4]);
    let e = spawn_walker(&mut state, 5, 5);
    state.mark_destroyed(e).unwrap();
    let frame = state.tick().unwrap();
    assert!(frame.sprites.is_empty());
    assert!(!state.is_alive(e));
}

#[test]
fn renderable_only_entity_is_left_alone_by_movement() {
    let mut state = State::new();
    let still = state.create_entity();
    state.attach(still, ComponentValue::Renderable(glyph(2))).unwrap();
    let marker_only = state.create_entity();
    state.attach(marker_only, ComponentValue::LeftMover(LeftMover {})).unwrap();
    let placed = spawn_at(&mut state, 12, 13);
    assert_eq!(state.run_systems(), Ok(()));
    assert_eq!(
        state.read_all(ComponentKind::Renderable).unwrap(),
        vec![(still, ComponentValue::Renderable(glyph(2)))]
    );
    assert_eq!(position_of(&state, still), None);
    assert_eq!(position_of(&state, marker_only), None);
    assert_eq!(position_of(&state, placed), Some(Position { x: 12, y: 13 }));
    assert!(state.is_alive(still));
}

#[test]
fn attach_to_unregistered_kind_is_refused() {
    let mut state = State::empty();
    let e = state.create_entity();
    assert_eq!(
        state.attach(e, ComponentValue::Position(Position { x: 1, y: 1 })),
        Err(StoreError::UnregisteredComponent)
    );
    state.register(ComponentKind::Position);
    assert_eq!(state.attach(e, ComponentValue::Position(Position { x: 1, y: 1 })), Ok(()));
    assert_eq!(
        state.attach(e, ComponentValue::Player(Player {})),
        Err(StoreError::UnregisteredComponent)
    );
}

#[test]
fn reads_of_unregistered_kind_are_refused() {
    let mut state = State::empty();
    let e = state.create_entity();
    assert_eq!(state.read_all(ComponentKind::Position), Err(StoreError::UnregisteredComponent));
    assert_eq!(state.position_of(e), Err(StoreError::UnregisteredComponent));
    assert_eq!(state.run_systems(), Err(StoreError::UnregisteredComponent));
    state.register(ComponentKind::LeftMover);
    assert_eq!(state.run_systems(), Err(StoreError::UnregisteredComponent));
    state.register(ComponentKind::Position);
    assert_eq!(state.run_systems(), Ok(()));
}

#[test]
fn fetch_of_missing_resource_is_refused() {
    let mut state = State::new();
    assert_eq!(state.fetch_resource(), Err(StoreError::ResourceMissing));
    assert_eq!(state.snapshot().err(), Some(StoreError::ResourceMissing));
    assert_eq!(state.tick().err(), Some(StoreError::ResourceMissing));
    state.insert_resource(vec![TileType::Wall, TileType::Floor]);
    assert_eq!(state.fetch_resource(), Ok(vec![TileType::Wall, TileType::Floor]));
    state.insert_resource(vec![TileType::Floor]);
    assert_eq!(state.fetch_resource(), Ok(vec![TileType::Floor]));
}

#[test]
fn refused_tick_changes_nothing() {
    let mut state = State::new();
    let e = spawn_walker(&mut state, 10, 10);
    state.mark_destroyed(e).unwrap();
    assert_eq!(state.tick().err(), Some(StoreError::ResourceMissing));
    assert!(state.is_alive(e));
    assert_eq!(position_of(&state, e), Some(Position { x: 10, y: 10 }));
}

#[test]
fn stale_handle_is_refused() {
    let mut state = State::new();
    let e = spawn_at(&mut state, 1, 2);
    state.mark_destroyed(e).unwrap();
    state.maintain();
    assert_eq!(
        state.attach(e, ComponentValue::Position(Position { x: 1, y: 2 })),
        Err(StoreError::StaleEntityHandle)
    );
    assert_eq!(state.mark_destroyed(e), Err(StoreError::StaleEntityHandle));
    assert_eq!(state.position_of(e), Ok(None));
    let never = EntityHandle { index: 1000, generation: 1 };
    assert!(!state.is_alive(never));
    assert_eq!(state.mark_destroyed(never), Err(StoreError::StaleEntityHandle));
}

#[test]
fn slot_of_a_removed_entity_is_given_a_new_generation() {
    let mut state = State::new();
    let first = spawn_at(&mut state, 1, 2);
    state.mark_destroyed(first).unwrap();
    state.maintain();
    let second = state.create_entity();
    assert_ne!(first, second);
    assert!(state.is_alive(second));
    assert!(!state.is_alive(first));
    assert_eq!(position_of(&state, second), None);
    assert_eq!(
        state.attach(first, ComponentValue::Position(Position { x: 0, y: 0 })),
        Err(StoreError::StaleEntityHandle)
    );
    assert_eq!(position_of(&state, second), None);
}

#[test]
fn create_entity_gives_fresh_handles() {
    let mut state = State::empty();
    let a = state.create_entity();
    let b = state.create_entity();
    let c = state.create_entity();
    assert!(a != b && b != c && a != c);
    assert!(state.is_alive(a) && state.is_alive(b) && state.is_alive(c));
    assert!(a.index != b.index && b.index != c.index && a.index != c.index);
}

#[test]
fn attach_overwrites_the_value_of_the_same_kind() {
    let mut state = State::new();
    let e = spawn_at(&mut state, 1, 1);
    state.attach(e, ComponentValue::Position(Position { x: 8, y: 9 })).unwrap();
    assert_eq!(position_of(&state, e), Some(Position { x: 8, y: 9 }));
    assert_eq!(
        state.read_all(ComponentKind::Position).unwrap(),
        vec![(e, ComponentValue::Position(Position { x: 8, y: 9 }))]
    );
}

#[test]
fn read_all_lists_each_kind_by_ascending_slot() {
    let mut state = State::new();
    let a = spawn_walker(&mut state, 1, 1);
    let b = spawn_at(&mut state, 2, 2);
    let c = spawn_walker(&mut state, 3, 3);
    state.attach(b, ComponentValue::Player(Player {})).unwrap();
    assert_eq!(
        state.read_all(ComponentKind::Position).unwrap(),
        vec![
            (a, ComponentValue::Position(Position { x: 1, y: 1 })),
            (b, ComponentValue::Position(Position { x: 2, y: 2 })),
            (c, ComponentValue::Position(Position { x: 3, y: 3 })),
        ]
    );
    assert_eq!(
        state.read_all(ComponentKind::LeftMover).unwrap(),
        vec![
            (a, ComponentValue::LeftMover(LeftMover {})),
            (c, ComponentValue::LeftMover(LeftMover {})),
        ]
    );
    assert_eq!(
        state.read_all(ComponentKind::Player).unwrap(),
        vec![(b, ComponentValue::Player(Player {}))]
    );
    assert_eq!(
        state.read_all(ComponentKind::Renderable).unwrap(),
        vec![
            (a, ComponentValue::Renderable(glyph(1))),
            (c, ComponentValue::Renderable(glyph(1))),
        ]
    );
}

#[test]
fn snapshot_lists_entities_with_position_and_renderable() {
    let mut state = State::new();
    state.insert_resource(vec![TileType::Wall, TileType::Floor, TileType::Floor]);
    let drawn = spawn_walker(&mut state, 4, 4);
    let _hidden = spawn_at(&mut state, 5, 5);
    let bare = state.create_entity();
    state.attach(bare, ComponentValue::Renderable(glyph(9))).unwrap();
    let frame = state.snapshot().unwrap();
    assert_eq!(frame.tiles, vec![TileType::Wall, TileType::Floor, TileType::Floor]);
    assert_eq!(frame.sprites.len(), 1);
    assert_eq!(frame.sprites[0].entity, drawn);
    assert_eq!(frame.sprites[0].position, Position { x: 4, y: 4 });
    assert_eq!(frame.sprites[0].renderable, glyph(1));
    assert_eq!(position_of(&state, drawn), Some(Position { x: 4, y: 4 }));
}

#[test]
fn tick_moves_then_gives_the_frame() {
    let mut state = State::new();
    state.insert_resource(vec![TileType::Floor; 6]);
    let walker = spawn_walker(&mut state, 0, 20);
    let frame = state.tick().unwrap();
    assert_eq!(frame.tiles.len(), 6);
    assert_eq!(frame.sprites.len(), 1);
    assert_eq!(frame.sprites[0].entity, walker);
    assert_eq!(frame.sprites[0].position, Position { x: 79, y: 20 });
}

#[test]
fn tick_without_renderables_registered_is_refused() {
    let mut state = State::empty();
    state.register(ComponentKind::Position);
    state.register(ComponentKind::LeftMover);
    state.insert_resource(vec![TileType::Floor]);
    assert_eq!(state.tick().err(), Some(StoreError::UnregisteredComponent));
    assert_eq!(state.snapshot().err(), Some(StoreError::UnregisteredComponent));
}

#[test]
fn error_messages_differ() {
    let a = StoreError::UnregisteredComponent.message();
    let b = StoreError::ResourceMissing.message();
    let c = StoreError::StaleEntityHandle.message();
    assert_eq!(a, "component kind was never registered");
    assert_eq!(b, "resource was never inserted");
    assert_eq!(c, "handle names no entity of the store");
}

#[test]
fn try_create_entity_creates_while_there_is_room() {
    let mut state = State::new();
    assert!(state.has_room());
    let a = state.try_create_entity().unwrap();
    let b = state.try_create_entity().unwrap();
    assert_ne!(a, b);
    assert!(state.is_alive(a));
    assert!(state.is_alive(b));
    assert!(state.has_room());
}

#[test]
fn empty_state_holds_nothing() {
    let state = State::empty();
    for kind in [
        ComponentKind::Position,
        ComponentKind::Renderable,
        ComponentKind::LeftMover,
        ComponentKind::Player,
    ] {
        assert!(!state.is_registered(kind));
    }
    assert!(!state.is_alive(EntityHandle { index: 0, generation: 1 }));
    assert_eq!(state.fetch_resource(), Err(StoreError::ResourceMissing));
}

#[test]
fn new_state_has_the_four_kinds_and_no_rows() {
    let state = State::new();
    for kind in [
        ComponentKind::Position,
        ComponentKind::Renderable,
        ComponentKind::LeftMover,
        ComponentKind::Player,
    ] {
        assert!(state.is_registered(kind));
        assert_eq!(state.read_all(kind), Ok(vec![]));
    }
}

#[test]
fn component_value_knows_its_kind() {
    assert_eq!(ComponentValue::Position(Position { x: 0, y: 0 }).kind(), ComponentKind::Position);
    assert_eq!(ComponentValue::Renderable(glyph(3)).kind(), ComponentKind::Renderable);
    assert_eq!(ComponentValue::LeftMover(LeftMover {}).kind(), ComponentKind::LeftMover);
    assert_eq!(ComponentValue::Player(Player {}).kind(), ComponentKind::Player);
}

#[test]
fn barrier_without_marks_changes_nothing() {
    let mut state = State::new();
    let e = spawn_walker(&mut state, 3, 3);
    state.maintain();
    assert!(state.is_alive(e));
    assert_eq!(position_of(&state, e), Some(Position { x: 3, y: 3 }));
    assert_eq!(state.read_all(ComponentKind::LeftMover).unwrap().len(), 1);
}

#[test]
fn marking_twice_is_marking_once() {
    let mut state = State::new();
    let e = spawn_at(&mut state, 3, 3);
    assert_eq!(state.mark_destroyed(e), Ok(()));
    assert_eq!(state.mark_destroyed(e), Ok(()));
    state.maintain();
    assert!(!state.is_alive(e));
    assert_eq!(state.read_all(ComponentKind::Position), Ok(vec![]));
}

#[test]
fn handle_beyond_the_slot_limit_names_no_entity() {
    let mut state = State::new();
    let e = spawn_at(&mut state, 1, 1);
    for index in [slot_limit(), slot_limit() + 64, 4_000_000_000, u32::MAX] {
        let far = EntityHandle { index, generation: 1 };
        assert!(!state.is_alive(far));
        assert_eq!(
            state.attach(far, ComponentValue::Position(Position { x: 0, y: 0 })),
            Err(StoreError::StaleEntityHandle)
        );
        assert_eq!(
            state.attach_deferred(far, ComponentValue::Position(Position { x: 0, y: 0 })),
            Err(StoreError::StaleEntityHandle)
        );
        assert_eq!(state.mark_destroyed(far), Err(StoreError::StaleEntityHandle));
        assert_eq!(state.position_of(far), Ok(None));
    }
    let last = EntityHandle { index: slot_limit() - 1, generation: 1 };
    assert!(!state.is_alive(last));
    assert!(state.is_alive(e));
}

#[test]
fn slot_limit_is_that_of_the_machine_word() {
    if usize::BITS == 64 {
        assert_eq!(slot_limit(), 16_777_216);
    } else {
        assert_eq!(slot_limit(), 1_048_576);
    }
}

#[test]
fn deferred_attach_is_seen_after_the_barrier_only() {
    let mut state = State::new();
    let e = state.create_entity();
    assert_eq!(
        state.attach_deferred(e, ComponentValue::Position(Position { x: 4, y: 5 })),
        Ok(())
    );
    assert_eq!(position_of(&state, e), None);
    assert_eq!(state.read_all(ComponentKind::Position), Ok(vec![]));
    state.maintain();
    assert_eq!(position_of(&state, e), Some(Position { x: 4, y: 5 }));
    assert_eq!(
        state.read_all(ComponentKind::Position),
        Ok(vec![(e, ComponentValue::Position(Position { x: 4, y: 5 }))])
    );
    state.maintain();
    assert_eq!(position_of(&state, e), Some(Position { x: 4, y: 5 }));
}

#[test]
fn deferred_position_is_not_moved_in_the_tick_that_commits_it() {
    let mut state = State::new();
    let e = state.create_entity();
    state.attach(e, ComponentValue::LeftMover(LeftMover {})).unwrap();
    state.attach_deferred(e, ComponentValue::Position(Position { x: 1, y: 2 })).unwrap();
    assert_eq!(state.run_systems(), Ok(()));
    assert_eq!(
        state.read_all(ComponentKind::Position),
        Ok(vec![(e, ComponentValue::Position(Position { x: 1, y: 2 }))])
    );
    assert_eq!(state.run_systems(), Ok(()));
    assert_eq!(position_of(&state, e), Some(Position { x: 0, y: 2 }));
}

#[test]
fn deferred_attachments_are_committed_in_their_order() {
    let mut state = State::new();
    let e = spawn_at(&mut state, 9, 9);
    state.attach_deferred(e, ComponentValue::Position(Position { x: 1, y: 1 })).unwrap();
    state.attach_deferred(e, ComponentValue::Position(Position { x: 2, y: 2 })).unwrap();
    state.attach_deferred(e, ComponentValue::Player(Player {})).unwrap();
    assert_eq!(position_of(&state, e), Some(Position { x: 9, y: 9 }));
    state.maintain();
    assert_eq!(position_of(&state, e), Some(Position { x: 2, y: 2 }));
    assert_eq!(
        state.read_all(ComponentKind::Player),
        Ok(vec![(e, ComponentValue::Player(Player {}))])
    );
}

#[test]
fn deferred_attach_to_a_marked_entity_is_passed_over() {
    let mut state = State::new();
    let e = spawn_at(&mut state, 3, 3);
    let other = state.create_entity();
    state.attach_deferred(e, ComponentValue::Renderable(glyph(5))).unwrap();
    state.attach_deferred(other, ComponentValue::Renderable(glyph(6))).unwrap();
    state.mark_destroyed(e).unwrap();
    state.maintain();
    assert!(!state.is_alive(e));
    assert_eq!(
        state.read_all(ComponentKind::Renderable),
        Ok(vec![(other, ComponentValue::Renderable(glyph(6)))])
    );
    assert_eq!(state.read_all(ComponentKind::Position), Ok(vec![]));
    let again = state.create_entity();
    assert_eq!(again.index, e.index);
    state.maintain();
    assert_eq!(
        state.read_all(ComponentKind::Renderable),
        Ok(vec![(other, ComponentValue::Renderable(glyph(6)))])
    );
}

#[test]
fn deferred_attach_is_refused_as_attach_is() {
    let mut state = State::empty();
    let e = state.create_entity();
    assert_eq!(
        state.attach_deferred(e, ComponentValue::Position(Position { x: 1, y: 1 })),
        Err(StoreError::UnregisteredComponent)
    );
    state.register(ComponentKind::Position);
    state.mark_destroyed(e).unwrap();
    assert_eq!(
        state.attach_deferred(e, ComponentValue::Position(Position { x: 1, y: 1 })),
        Ok(())
    );
    state.maintain();
    assert_eq!(
        state.attach_deferred(e, ComponentValue::Position(Position { x: 1, y: 1 })),
        Err(StoreError::StaleEntityHandle)
    );
    state.maintain();
    assert_eq!(state.read_all(ComponentKind::Position), Ok(vec![]));
}
