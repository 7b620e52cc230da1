use specs::{Builder, Join, WorldExt};
use warhorn::{register_components, LeftMover, Player, Position, Registry, ComponentKind};

#[test]
fn register_components_declares_the_four_kinds() {
    let world = register_components(specs::World::new());
    assert_eq!(world.read_storage::<Position>().join().count(), 0);
    assert_eq!(world.read_storage::<warhorn::Renderable>().join().count(), 0);
    assert_eq!(world.read_storage::<LeftMover>().join().count(), 0);
    assert_eq!(world.read_storage::<Player>().join().count(), 0);
}

#[test]
fn register_components_keeps_what_the_world_holds() {
    let mut world = specs::World::new();
    world.register::<Position>();
    let e = world.create_entity().with(Position { x: 3, y: 4 }).build();
    let world = register_components(world);
    assert!(world.is_alive(e));
    assert_eq!(world.read_storage::<Position>().get(e), Some(&Position { x: 3, y: 4 }));
    let world = register_components(world);
    assert_eq!(world.read_storage::<Position>().get(e), Some(&Position { x: 3, y: 4 }));
    assert_eq!(world.read_storage::<Position>().join().count(), 1);
}

#[test]
fn registry_starts_empty_and_keeps_what_is_registered() {
    let mut registry = Registry::new();
    assert!(!registry.contains(ComponentKind::Position));
    registry.register(ComponentKind::Position);
    registry.register(ComponentKind::Position);
    assert!(registry.contains(ComponentKind::Position));
    assert!(!registry.contains(ComponentKind::Player));
    registry.register(ComponentKind::Player);
    assert!(registry.contains(ComponentKind::Player));
    assert!(registry.contains(ComponentKind::Position));
    assert!(!registry.contains(ComponentKind::LeftMover));
    assert!(!registry.contains(ComponentKind::Renderable));
}

#[test]
fn left_walker_moves_marked_entities_of_a_world() {
    let mut world = register_components(specs::World::new());
    let walker = world.create_entity().with(Position { x: 0, y: 2 }).with(LeftMover {}).build();
    let other = world.create_entity().with(Position { x: 5, y: 2 }).build();
    let mut system = warhorn::LeftWalker {};
    system.run(&mut world);
    assert_eq!(world.read_storage::<Position>().get(walker), Some(&Position { x: 79, y: 2 }));
    assert_eq!(world.read_storage::<Position>().get(other), Some(&Position { x: 5, y: 2 }));
    system.run(&mut world);
    assert_eq!(world.read_storage::<Position>().get(walker), Some(&Position { x: 78, y: 2 }));
}
