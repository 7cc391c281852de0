use rust_ecs::{Component, ComponentListBase, Ecs, EcsError, Entity};

#[derive(Debug, Clone, PartialEq)]
struct Position {
    x: i32,
}

impl Component for Position {}

#[derive(Debug, Clone, PartialEq)]
struct Velocity {
    dx: i32,
}

impl Component for Velocity {}

#[test]
fn a_component_can_be_read_back() {
    let mut ecs = Ecs::new(16);
    assert_eq!(ecs.register::<Position>(), Ok(()));
    let e0 = ecs.add_entity().unwrap();
    assert_eq!(e0, Entity(0));
    assert_eq!(ecs.add_component(e0, Position { x: 1 }), Ok(true));
    let found = ecs.get_component::<Position>(e0).unwrap().unwrap();
    assert_eq!(*found, Position { x: 1 });
}

#[test]
fn removing_an_entity_removes_its_components() {
    let mut ecs = Ecs::new(16);
    assert_eq!(ecs.register::<Position>(), Ok(()));
    let e0 = ecs.add_entity().unwrap();
    assert_eq!(ecs.add_component(e0, Position { x: 1 }), Ok(true));
    let e1 = ecs.add_entity().unwrap();
    assert_eq!(e1, Entity(1));
    assert_eq!(ecs.add_component(e1, Position { x: 2 }), Ok(true));
    assert!(ecs.remove_entity(e0));
    assert!(ecs.get_component::<Position>(e0).unwrap().is_none());
    let list = ecs.list_component::<Position>().unwrap();
    assert_eq!(list.iter().count(), 1);
    assert_eq!(*list.index(0), Position { x: 2 });
}

#[test]
fn a_component_of_an_unknown_entity_is_refused() {
    let mut ecs = Ecs::new(16);
    assert_eq!(ecs.register::<Position>(), Ok(()));
    assert_eq!(ecs.add_component(Entity(999), Position { x: 7 }), Ok(false));
    let list = ecs.list_component::<Position>().unwrap();
    assert_eq!(list.iter().count(), 0);
}

fn shareable<T: Send + Sync>(_: &T) {}

#[test]
fn lists_of_different_types_do_not_block_each_other() {
    let mut ecs = Ecs::new(16);
    assert_eq!(ecs.register::<Position>(), Ok(()));
    assert_eq!(ecs.register::<Velocity>(), Ok(()));
    shareable(&ecs);
    let e = ecs.add_entity().unwrap();
    let first = &ecs;
    let second = &ecs;
    assert_eq!(first.add_component(e, Position { x: 3 }), Ok(true));
    {
        let positions = first.list_component_mut::<Position>().unwrap();
        assert_eq!(second.add_component(e, Velocity { dx: 4 }), Ok(true));
        assert_eq!(positions.iter().count(), 1);
    }
    assert_eq!(*ecs.get_component::<Position>(e).unwrap().unwrap(), Position { x: 3 });
    assert_eq!(*ecs.get_component::<Velocity>(e).unwrap().unwrap(), Velocity { dx: 4 });
    assert_eq!(ecs.register::<Velocity>(), Err(EcsError::AlreadyRegistered));
}

#[test]
fn a_type_can_be_registered_once() {
    let mut ecs = Ecs::new(0);
    assert_eq!(ecs.register::<Position>(), Ok(()));
    assert_eq!(ecs.register::<Position>(), Err(EcsError::AlreadyRegistered));
    assert_eq!(ecs.register::<Velocity>(), Ok(()));
    assert_eq!(ecs.register::<Velocity>(), Err(EcsError::AlreadyRegistered));
    assert_eq!(ecs.register::<Position>(), Err(EcsError::AlreadyRegistered));
}

#[test]
fn a_second_registration_keeps_the_components() {
    let mut ecs = Ecs::new(0);
    assert_eq!(ecs.register::<Position>(), Ok(()));
    let e = ecs.add_entity().unwrap();
    assert_eq!(ecs.add_component(e, Position { x: 5 }), Ok(true));
    assert_eq!(ecs.register::<Position>(), Err(EcsError::AlreadyRegistered));
    assert_eq!(*ecs.get_component::<Position>(e).unwrap().unwrap(), Position { x: 5 });
}

#[test]
fn an_unregistered_type_is_an_error_of_its_own() {
    let mut ecs = Ecs::new(4);
    assert_eq!(ecs.register::<Position>(), Ok(()));
    let e = ecs.add_entity().unwrap();
    assert_eq!(
        ecs.add_component(e, Velocity { dx: 1 }),
        Err(EcsError::ComponentTypeUnregistered)
    );
    assert_eq!(
        ecs.get_component::<Velocity>(e).err(),
        Some(EcsError::ComponentTypeUnregistered)
    );
    assert_eq!(
        ecs.get_component_mut::<Velocity>(e).err(),
        Some(EcsError::ComponentTypeUnregistered)
    );
    assert_eq!(
        ecs.list_component::<Velocity>().err(),
        Some(EcsError::ComponentTypeUnregistered)
    );
    assert_eq!(
        ecs.list_component_mut::<Velocity>().err(),
        Some(EcsError::ComponentTypeUnregistered)
    );
    assert_eq!(
        ecs.remove_component::<Velocity>(e),
        Err(EcsError::ComponentTypeUnregistered)
    );
    assert_eq!(ecs.add_component(e, Position { x: 1 }), Ok(true));
}

#[test]
fn nothing_is_registered_at_first() {
    let ecs = Ecs::new(4);
    let e = ecs.add_entity().unwrap();
    assert_eq!(
        ecs.add_component(e, Position { x: 1 }),
        Err(EcsError::ComponentTypeUnregistered)
    );
    assert!(ecs.list_component::<Position>().is_err());
}

#[test]
fn the_entity_is_tested_before_the_type() {
    let mut ecs = Ecs::new(4);
    assert_eq!(ecs.add_component(Entity(0), Position { x: 1 }), Ok(false));
    assert!(ecs.get_component::<Position>(Entity(0)).unwrap().is_none());
    assert!(ecs.get_component_mut::<Position>(Entity(0)).unwrap().is_none());
    assert_eq!(ecs.register::<Position>(), Ok(()));
    let e = ecs.add_entity().unwrap();
    assert!(ecs.remove_entity(e));
    assert_eq!(ecs.add_component(e, Velocity { dx: 1 }), Ok(false));
    assert!(ecs.get_component::<Velocity>(e).unwrap().is_none());
    assert!(ecs.get_component_mut::<Velocity>(e).unwrap().is_none());
    let f = ecs.add_entity().unwrap();
    assert_eq!(
        ecs.get_component::<Velocity>(f).err(),
        Some(EcsError::ComponentTypeUnregistered)
    );
}

#[test]
fn entities_are_numbered_upwards_across_removals() {
    let ecs = Ecs::new(2);
    let a = ecs.add_entity().unwrap();
    let b = ecs.add_entity().unwrap();
    assert!(ecs.remove_entity(a));
    let c = ecs.add_entity().unwrap();
    assert!(ecs.remove_entity(c));
    assert!(ecs.remove_entity(b));
    let d = ecs.add_entity().unwrap();
    assert_eq!((a, b, c, d), (Entity(0), Entity(1), Entity(2), Entity(3)));
    assert!(a < b && b < c && c < d);
}

#[test]
fn an_entity_can_be_removed_once() {
    let mut ecs = Ecs::new(2);
    assert_eq!(ecs.register::<Position>(), Ok(()));
    assert!(!ecs.remove_entity(Entity(0)));
    let e = ecs.add_entity().unwrap();
    assert_eq!(ecs.add_component(e, Position { x: 1 }), Ok(true));
    assert!(ecs.remove_entity(e));
    assert!(!ecs.remove_entity(e));
    assert!(!ecs.remove_entity(Entity(999)));
    assert!(ecs.get_component::<Position>(e).unwrap().is_none());
    assert_eq!(ecs.add_component(e, Position { x: 2 }), Ok(false));
    assert_eq!(ecs.list_component::<Position>().unwrap().iter().count(), 0);
}

#[test]
fn removal_reaches_the_lists_of_all_types() {
    let mut ecs = Ecs::new(4);
    assert_eq!(ecs.register::<Position>(), Ok(()));
    assert_eq!(ecs.register::<Velocity>(), Ok(()));
    let a = ecs.add_entity().unwrap();
    let b = ecs.add_entity().unwrap();
    assert_eq!(ecs.add_component(a, Position { x: 1 }), Ok(true));
    assert_eq!(ecs.add_component(a, Velocity { dx: 10 }), Ok(true));
    assert_eq!(ecs.add_component(b, Velocity { dx: 20 }), Ok(true));
    assert!(ecs.remove_entity(a));
    assert!(ecs.get_component::<Position>(a).unwrap().is_none());
    assert!(ecs.get_component::<Velocity>(a).unwrap().is_none());
    {
        let positions = ecs.list_component::<Position>().unwrap();
        assert_eq!(positions.iter().count(), 0);
        assert_eq!(positions.get_index(a), None);
    }
    let velocities = ecs.list_component::<Velocity>().unwrap();
    assert_eq!(velocities.iter().count(), 1);
    assert_eq!(velocities.get_index(a), None);
    assert_eq!(velocities.get_index(b), Some(0));
    assert_eq!(velocities.get(b), Some(&Velocity { dx: 20 }));
}

#[test]
fn a_second_component_replaces_the_first() {
    let mut ecs = Ecs::new(4);
    assert_eq!(ecs.register::<Position>(), Ok(()));
    let e = ecs.add_entity().unwrap();
    let other = ecs.add_entity().unwrap();
    assert_eq!(ecs.add_component(other, Position { x: 9 }), Ok(true));
    assert_eq!(ecs.add_component(e, Position { x: 1 }), Ok(true));
    assert_eq!(ecs.list_component::<Position>().unwrap().iter().count(), 2);
    assert_eq!(ecs.add_component(e, Position { x: 2 }), Ok(true));
    assert_eq!(ecs.list_component::<Position>().unwrap().iter().count(), 2);
    assert_eq!(*ecs.get_component::<Position>(e).unwrap().unwrap(), Position { x: 2 });
    assert_eq!(*ecs.get_component::<Position>(other).unwrap().unwrap(), Position { x: 9 });
}

#[test]
fn a_component_can_be_written_through_its_guard() {
    let mut ecs = Ecs::new(4);
    assert_eq!(ecs.register::<Position>(), Ok(()));
    let e = ecs.add_entity().unwrap();
    assert_eq!(ecs.add_component(e, Position { x: 1 }), Ok(true));
    {
        let mut guard = ecs.get_component_mut::<Position>(e).unwrap().unwrap();
        assert_eq!(*guard, Position { x: 1 });
        guard.x = 41;
    }
    assert_eq!(*ecs.get_component::<Position>(e).unwrap().unwrap(), Position { x: 41 });
    assert!(ecs.get_component_mut::<Position>(Entity(7)).unwrap().is_none());
}

#[test]
fn an_entity_without_the_component_shows_none() {
    let mut ecs = Ecs::new(4);
    assert_eq!(ecs.register::<Position>(), Ok(()));
    assert_eq!(ecs.register::<Velocity>(), Ok(()));
    let e = ecs.add_entity().unwrap();
    assert_eq!(ecs.add_component(e, Position { x: 1 }), Ok(true));
    assert!(ecs.get_component::<Velocity>(e).unwrap().is_none());
    assert!(ecs.get_component_mut::<Velocity>(e).unwrap().is_none());
    assert!(ecs.get_component::<Position>(Entity(5)).unwrap().is_none());
}

#[test]
fn a_whole_list_can_be_written_through_its_guard() {
    let mut ecs = Ecs::new(4);
    assert_eq!(ecs.register::<Position>(), Ok(()));
    let a = ecs.add_entity().unwrap();
    let b = ecs.add_entity().unwrap();
    assert_eq!(ecs.add_component(a, Position { x: 1 }), Ok(true));
    assert_eq!(ecs.add_component(b, Position { x: 2 }), Ok(true));
    {
        let mut list = ecs.list_component_mut::<Position>().unwrap();
        for position in list.iter_mut() {
            position.x *= 10;
        }
        assert_eq!(list.index(1), &Position { x: 20 });
    }
    assert_eq!(*ecs.get_component::<Position>(a).unwrap().unwrap(), Position { x: 10 });
    assert_eq!(*ecs.get_component::<Position>(b).unwrap().unwrap(), Position { x: 20 });
}

#[test]
fn a_component_can_be_taken_out() {
    let mut ecs = Ecs::new(4);
    assert_eq!(ecs.register::<Position>(), Ok(()));
    let a = ecs.add_entity().unwrap();
    let b = ecs.add_entity().unwrap();
    assert_eq!(ecs.add_component(a, Position { x: 1 }), Ok(true));
    assert_eq!(ecs.add_component(b, Position { x: 2 }), Ok(true));
    assert_eq!(ecs.remove_component::<Position>(a), Ok(Some(Position { x: 1 })));
    assert_eq!(ecs.remove_component::<Position>(a), Ok(None));
    assert!(ecs.get_component::<Position>(a).unwrap().is_none());
    let list = ecs.list_component::<Position>().unwrap();
    assert_eq!(list.get_index(b), Some(0));
    assert_eq!(list.iter().count(), 1);
}

#[test]
fn a_list_shows_the_active_entities_with_a_component() {
    let mut ecs = Ecs::new(8);
    assert_eq!(ecs.register::<Position>(), Ok(()));
    let mut made = Vec::new();
    for x in 0..6 {
        let e = ecs.add_entity().unwrap();
        if x % 2 == 0 {
            assert_eq!(ecs.add_component(e, Position { x }), Ok(true));
        }
        made.push(e);
    }
    assert!(ecs.remove_entity(made[0]));
    assert!(ecs.remove_entity(made[1]));
    let list = ecs.list_component::<Position>().unwrap();
    let mut shown = Vec::new();
    let mut index = 0;
    while let Some(e) = list.get_entity(index) {
        shown.push(e);
        index += 1;
    }
    shown.sort();
    assert_eq!(shown, vec![made[2], made[4]]);
    assert_eq!(list.iter().count(), 2);
}

#[test]
fn the_others_keep_their_components_through_a_removal() {
    let mut ecs = Ecs::new(16);
    assert_eq!(ecs.register::<Position>(), Ok(()));
    assert_eq!(ecs.register::<Velocity>(), Ok(()));
    let e0 = ecs.add_entity().unwrap();
    let e1 = ecs.add_entity().unwrap();
    let e2 = ecs.add_entity().unwrap();
    assert_eq!(ecs.add_component(e0, Position { x: 1 }), Ok(true));
    assert_eq!(ecs.add_component(e1, Position { x: 2 }), Ok(true));
    assert_eq!(ecs.add_component(e2, Position { x: 3 }), Ok(true));
    assert_eq!(ecs.add_component(e2, Velocity { dx: 30 }), Ok(true));
    assert!(ecs.remove_entity(e1));
    assert!(ecs.get_component::<Position>(e1).unwrap().is_none());
    assert_eq!(*ecs.get_component::<Position>(e0).unwrap().unwrap(), Position { x: 1 });
    assert_eq!(*ecs.get_component::<Position>(e2).unwrap().unwrap(), Position { x: 3 });
    assert_eq!(*ecs.get_component::<Velocity>(e2).unwrap().unwrap(), Velocity { dx: 30 });
    assert!(ecs.remove_entity(e0));
    let list = ecs.list_component::<Position>().unwrap();
    assert_eq!(list.iter().count(), 1);
    assert_eq!(list.get_index(e2), Some(0));
    assert_eq!(list.get_entity(0), Some(e2));
    assert_eq!(list.get_entity(1), None);
    assert_eq!(list.index(0), &Position { x: 3 });
}

#[test]
fn a_failed_removal_leaves_the_lists_alone() {
    let mut ecs = Ecs::new(16);
    assert_eq!(ecs.register::<Position>(), Ok(()));
    let e0 = ecs.add_entity().unwrap();
    assert_eq!(ecs.add_component(e0, Position { x: 1 }), Ok(true));
    let list = ecs.list_component::<Position>().unwrap();
    assert!(!ecs.remove_entity(Entity(77)));
    assert_eq!(list.iter().count(), 1);
    assert_eq!(list.get(e0), Some(&Position { x: 1 }));
}
