//! The common vocabulary of the crate: entities and the component marker.

use std::any::TypeId;
use std::cmp::Ordering;
use vstd::prelude::*;
use vstd::std_specs::cmp::PartialOrdSpecImpl;
use vstd::std_specs::convert::FromSpecImpl;

use crate::erased::{members_behind, members_behind_mut, members_left_behind, AnyMut, AnyRef};

verus! {

/// The identifier of an entity. It carries no data of its own: components are
/// attached to it in the lists of their types.
///
/// Entities are ordered as their numbers are.
#[derive(Debug, Copy, Clone, PartialEq, Eq, Ord, Hash, Structural)]
pub struct Entity(pub u64);

impl PartialOrd for Entity {
    fn partial_cmp(&self, other: &Self) -> (order: Option<Ordering>) {
        if self.0 < other.0 {
            Some(Ordering::Less)
        } else if self.0 == other.0 {
            Some(Ordering::Equal)
        } else {
            Some(Ordering::Greater)
        }
    }
}

impl PartialOrdSpecImpl for Entity {
    open spec fn obeys_partial_cmp_spec() -> bool {
        true
    }

    open spec fn partial_cmp_spec(&self, other: &Self) -> Option<Ordering> {
        if self.0 < other.0 {
            Some(Ordering::Less)
        } else if self.0 == other.0 {
            Some(Ordering::Equal)
        } else {
            Some(Ordering::Greater)
        }
    }
}

impl From<u64> for Entity {
    fn from(value: u64) -> (entity: Self) {
        Entity(value)
    }
}

impl FromSpecImpl<u64> for Entity {
    open spec fn obeys_from_spec() -> bool {
        true
    }

    open spec fn from_spec(value: u64) -> Self {
        Entity(value)
    }
}

impl From<Entity> for u64 {
    fn from(value: Entity) -> (id: Self) {
        value.0
    }
}

impl FromSpecImpl<Entity> for u64 {
    open spec fn obeys_from_spec() -> bool {
        true
    }

    open spec fn from_spec(value: Entity) -> Self {
        value.0
    }
}

/// The ways in which a call on the system can fail.
#[derive(Debug, Copy, Clone, PartialEq, Eq, Structural)]
pub enum EcsError {
    /// The component type was registered before.
    AlreadyRegistered,
    /// The component type was never registered.
    ComponentTypeUnregistered,
    /// The list found under a component type's identity holds another type.
    TypeMismatch,
    /// Every entity identifier has been issued.
    IdentifiersExhausted,
}

/// Marks a type as one whose values can be attached to entities.
pub trait Component {
}

/// The sequence left when position `i` of `s` is filled with the last element
/// and the sequence is shortened by one.
pub open spec fn swap_removed<A>(s: Seq<A>, i: int) -> Seq<A> {
    s.update(i, s.last()).drop_last()
}

/// The entities of a list, by position, after a component is attached to
/// `entity`: the entity takes a new last position, unless it has one.
pub open spec fn attached(members: Seq<Entity>, entity: Entity) -> Seq<Entity> {
    if members.contains(entity) {
        members
    } else {
        members.push(entity)
    }
}

/// The entities of a list, by position, after the component of `entity` is
/// taken out: the last entity moves into its position, if it has one.
pub open spec fn detached(members: Seq<Entity>, entity: Entity) -> Seq<Entity> {
    if members.contains(entity) {
        swap_removed(members, members.index_of(entity))
    } else {
        members
    }
}

/// What every component list offers whatever the type of its components: its
/// identity, the positions of its entities, and deletion by entity.
pub trait ComponentListBase: Send + Sync {
    /// The entities that have a component in the list, by position.
    spec fn members(&self) -> Seq<Entity>;

    /// The list as a value of unknown type, from which the list itself can be
    /// had back by its type.
    fn as_any(&self) -> (any: AnyRef<'_>)
        ensures
            members_behind(any) == self.members(),
    ;

    /// The list as a mutable value of unknown type. What is done to the list
    /// behind it is done to this list.
    fn as_any_mut(&mut self) -> (any: AnyMut<'_>)
        ensures
            members_behind_mut(any) == old(self).members(),
            members_left_behind(any) == final(self).members(),
    ;

    /// The identity of the list's component type.
    fn id(&self) -> TypeId;

    /// The position of `entity`, if it has a component in the list.
    fn get_index(&self, entity: Entity) -> (index: Option<usize>)
        ensures
            self.members().no_duplicates(),
            match index {
                Some(i) => i < self.members().len() && self.members()[i as int] == entity,
                None => !self.members().contains(entity),
            },
    ;

    /// The entity at position `index`, if the position is occupied.
    fn get_entity(&self, index: usize) -> (entity: Option<Entity>)
        ensures
            match entity {
                Some(e) => index < self.members().len() && e == self.members()[index as int],
                None => index >= self.members().len(),
            },
    ;

    /// Drops the component of `entity`, if it has one in the list. The last
    /// entity moves into the position that this leaves empty, and the entity
    /// is not in the list afterwards.
    fn delete(&mut self, entity: Entity)
        ensures
            old(self).members().no_duplicates(),
            final(self).members().no_duplicates(),
            !final(self).members().contains(entity),
            final(self).members() == detached(old(self).members(), entity),
    ;
}

} // verus!
