use std::cmp::Ordering;

use rust_ecs::{Entity, EntityRegistry};

#[test]
fn identifiers_start_at_zero_and_increase() {
    let mut registry = EntityRegistry::new(4);
    assert_eq!(registry.create_entity(), Some(Entity(0)));
    assert_eq!(registry.create_entity(), Some(Entity(1)));
    assert_eq!(registry.create_entity(), Some(Entity(2)));
}

#[test]
fn removals_do_not_bring_identifiers_back() {
    let mut registry = EntityRegistry::new(0);
    let mut last = registry.create_entity().unwrap();
    for round in 0..50u64 {
        if round % 3 == 0 {
            assert!(registry.remove_entity(last));
        }
        let next = registry.create_entity().unwrap();
        assert!(next > last);
        assert_eq!(next, Entity(round + 1));
        last = next;
    }
}

#[test]
fn only_active_entities_can_be_removed() {
    let mut registry = EntityRegistry::new(4);
    assert!(!registry.remove_entity(Entity(0)));
    let e = registry.create_entity().unwrap();
    assert!(registry.contains(e));
    assert!(registry.remove_entity(e));
    assert!(!registry.contains(e));
    assert!(!registry.remove_entity(e));
    assert!(!registry.remove_entity(Entity(999)));
}

#[test]
fn contains_tells_the_active_from_the_rest() {
    let mut registry = EntityRegistry::new(4);
    let a = registry.create_entity().unwrap();
    let b = registry.create_entity().unwrap();
    assert!(registry.remove_entity(a));
    assert!(!registry.contains(a));
    assert!(registry.contains(b));
    assert!(!registry.contains(Entity(2)));
}

#[test]
fn entities_convert_to_and_from_numbers() {
    let e = Entity::from(42u64);
    assert_eq!(e, Entity(42));
    assert_eq!(u64::from(e), 42);
    let n: u64 = Entity(7).into();
    assert_eq!(n, 7);
    assert!(Entity(1) < Entity(2));
    assert_eq!(Entity(3).max(Entity(2)), Entity(3));
}

#[test]
fn entities_are_ordered_as_their_numbers() {
    let low = Entity(3);
    let high = Entity(10);
    assert!(low < high);
    assert!(low <= high);
    assert!(high > low);
    assert!(high >= low);
    assert!(low <= Entity(3));
    assert!(!(low < Entity(3)));
    assert_eq!(low.partial_cmp(&high), Some(Ordering::Less));
    assert_eq!(high.partial_cmp(&low), Some(Ordering::Greater));
    assert_eq!(low.partial_cmp(&Entity(3)), Some(Ordering::Equal));
    assert_eq!(low.cmp(&high), Ordering::Less);
    assert_eq!(Entity(u64::MAX).partial_cmp(&Entity(0)), Some(Ordering::Greater));
    let mut all = vec![Entity(5), Entity(1), Entity(9), Entity(0)];
    all.sort();
    assert_eq!(all, vec![Entity(0), Entity(1), Entity(5), Entity(9)]);
}
