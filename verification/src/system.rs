//! The system itself: the registry of entities and one locked component list
//! for each registered component type.

use parking_lot::lock_api::RwLock;
use parking_lot::{MappedRwLockReadGuard, MappedRwLockWriteGuard, RawRwLock};
use parking_lot::{RwLockReadGuard, RwLockWriteGuard};
use std::any::TypeId;
use vstd::prelude::*;

use crate::erased::{downcast_mut, downcast_ref, same_type};
use crate::list::{lemma_removed_keeps_the_others, ComponentList};
use crate::registry::{EntityRegistry, RegistryModel};
use crate::spec::{attached, detached, Component, ComponentListBase, EcsError, Entity};
use crate::sync::{lock_read, lock_write, mapped_ref, mapped_write_ref, new_lock, read_ref, write_mut};
use crate::sync::{MappedReadGuard, MappedWriteGuard, ReadGuard, WriteGuard};

verus! {

/// A component list whose component type is known only at run time.
pub type Handle = Box<dyn ComponentListBase>;

/// Whether every entity with a component in `list` is active in `registry`.
pub open spec fn consistent<T: Component>(registry: RegistryModel, list: ComponentList<T>) -> bool {
    forall|e: Entity| #[trigger] list.has(e) ==> registry.active.contains(e)
}

/// The component of `entity` that the system shows: the one in `list`, if the
/// entity is active and has one.
pub open spec fn visible<T: Component>(
    registry: RegistryModel,
    list: ComponentList<T>,
    entity: Entity,
) -> Option<T> {
    if registry.active.contains(entity) && list.has(entity) {
        Some(list.component(entity))
    } else {
        None
    }
}

/// Once an entity is removed from the registry, the system shows no component
/// of it, whatever a list holds.
pub proof fn lemma_removed_entity_shows_nothing<T: Component>(
    registry: RegistryModel,
    list: ComponentList<T>,
    entity: Entity,
)
    ensures
        !registry.remove(entity).active.contains(entity),
        visible(registry.remove(entity), list, entity) is None,
{
}

/// A list whose entities are all active yields exactly the active entities
/// that have a component in it, each once.
pub proof fn lemma_list_yields_the_active<T: Component>(
    registry: RegistryModel,
    list: ComponentList<T>,
)
    requires
        list.wf(),
        consistent(registry, list),
    ensures
        list.entities().no_duplicates(),
        list.entities().to_set() == Set::new(
            |e: Entity| registry.active.contains(e) && list.has(e),
        ),
        forall|e: Entity| #[trigger] list.has(e) <==> visible(registry, list, e) is Some,
{
    assert forall|e: Entity| list.entities().contains(e) implies registry.active.contains(e) by {
        assert(list.has(e));
    }
    assert(list.entities().to_set() =~= Set::new(
        |e: Entity| registry.active.contains(e) && list.has(e),
    ));
}

/// The creation of an entity leaves every list with active entities only.
pub proof fn lemma_creation_keeps_consistency<T: Component>(
    registry: RegistryModel,
    list: ComponentList<T>,
)
    requires
        consistent(registry, list),
    ensures
        consistent(registry.create(), list),
{
}

/// The removal of an entity from the registry and from a list leaves the list
/// with active entities only; so does its removal from the list alone.
pub proof fn lemma_removal_keeps_consistency<T: Component>(
    registry: RegistryModel,
    before: ComponentList<T>,
    after: ComponentList<T>,
    entity: Entity,
)
    requires
        before.wf(),
        consistent(registry, before),
        ComponentList::removed(before, after, entity),
    ensures
        consistent(registry.remove(entity), after),
        consistent(registry, after),
{
    lemma_removed_keeps_the_others(before, after, entity);
    assert forall|e: Entity| #[trigger] after.has(e) implies registry.remove(
        entity,
    ).active.contains(e) by {
        assert(e != entity);
        assert(before.has(e));
    }
}

/// Attaches `data` to `entity` in `list`, if the entity is active in
/// `registry`; else changes nothing. Returns whether the entity is active.
pub fn attach<T: Component>(
    registry: &EntityRegistry,
    list: &mut ComponentList<T>,
    entity: Entity,
    data: T,
) -> (added: bool)
    ensures
        added == registry@.active.contains(entity),
        final(list).entities() == if added {
            attached(old(list).entities(), entity)
        } else {
            old(list).entities()
        },
        added ==> final(list).wf() && ComponentList::inserted(
            *old(list),
            *final(list),
            entity,
            data,
        ),
        !added ==> final(list).entities() == old(list).entities() && final(list).values() == old(
            list,
        ).values(),
        consistent(registry@, *old(list)) ==> consistent(registry@, *final(list)),
{
    if registry.contains(entity) {
        list.insert(entity, data);
        proof {
            assert forall|e: Entity| #[trigger] list.has(e) implies e == entity || old(list).has(
                e,
            ) by {
                let i = list.index_of(e);
                if old(list).has(entity) {
                    assert(old(list).entities()[i] == e);
                } else if i < old(list).entities().len() {
                    assert(old(list).entities()[i] == e);
                }
            }
        }
        true
    } else {
        false
    }
}

/// The component that the system shows of `entity`.
pub fn lookup<'a, T: Component>(
    registry: &EntityRegistry,
    list: &'a ComponentList<T>,
    entity: Entity,
) -> (found: Option<&'a T>)
    ensures
        registry@.wf(),
        match found {
            Some(component) => visible(registry@, *list, entity) == Some(*component),
            None => visible(registry@, *list, entity) is None,
        },
{
    if registry.contains(entity) {
        list.get(entity)
    } else {
        None
    }
}

/// The part of the removal of an entity that falls to one list: where the
/// entity was active in the registry, its component is dropped from the list
/// as `delete` does; where it was not, the list is left alone.
pub fn cascade_step(handle: &mut Handle, was_active: bool, entity: Entity)
    ensures
        final(handle).members() == if was_active {
            detached(old(handle).members(), entity)
        } else {
            old(handle).members()
        },
        was_active ==> {
            &&& final(handle).members().no_duplicates()
            &&& !final(handle).members().contains(entity)
        },
{
    if was_active {
        handle.delete(entity);
    }
}

/// The list behind `handle`, if its components are of type `T`. It holds the
/// handle's entities at the handle's positions.
pub fn typed<'a, T: 'static + Component>(handle: &'a Handle) -> (list: Option<
    &'a ComponentList<T>,
>)
    ensures
        list matches Some(found) ==> found.entities() == handle.members(),
{
    downcast_ref::<T>(handle.as_any())
}

/// The list behind `handle`, for writing, if its components are of type `T`.
/// It holds the handle's entities at the handle's positions, and the entities
/// that the caller leaves in it are the handle's afterwards. Where no list
/// comes back, the handle's entities stay as they were.
pub fn typed_mut<'a, T: 'static + Component>(handle: &'a mut Handle) -> (list: Option<
    &'a mut ComponentList<T>,
>)
    ensures
        match list {
            Some(list) => {
                &&& list.entities() == old(handle).members()
                &&& final(handle).members() == final(list).entities()
            },
            None => final(handle).members() == old(handle).members(),
        },
{
    downcast_mut::<T>(handle.as_any_mut())
}

/// `RwLockReadGuard::try_map`: narrows the guard of a handle to the list
/// behind it, if its components are of type `T`; else the lock is released.
#[verifier::external_body]
fn read_list<'a, T: 'static + Component>(guard: ReadGuard<'a, Handle>) -> (list: Option<
    MappedReadGuard<'a, ComponentList<T>>,
>) {
    match RwLockReadGuard::try_map(guard.guard, |handle| typed::<T>(handle)) {
        Ok(guard) => Some(MappedReadGuard { guard }),
        Err(_) => None,
    }
}

/// `RwLockWriteGuard::try_map`: narrows the guard of a handle to the list
/// behind it, if its components are of type `T`; else the lock is released.
#[verifier::external_body]
fn write_list<'a, T: 'static + Component>(guard: WriteGuard<'a, Handle>) -> (list: Option<
    MappedWriteGuard<'a, ComponentList<T>>,
>) {
    match RwLockWriteGuard::try_map(guard.guard, |handle| typed_mut::<T>(handle)) {
        Ok(guard) => Some(MappedWriteGuard { guard }),
        Err(_) => None,
    }
}

/// `MappedRwLockReadGuard::try_map`: narrows the guard of a list to the
/// component of `entity`, if it has one there; else the lock is released.
#[verifier::external_body]
fn read_component<'a, T: 'static + Component>(
    guard: MappedReadGuard<'a, ComponentList<T>>,
    entity: Entity,
) -> (component: Option<MappedReadGuard<'a, T>>) {
    match MappedRwLockReadGuard::try_map(guard.guard, |list| list.get(entity)) {
        Ok(guard) => Some(MappedReadGuard { guard }),
        Err(_) => None,
    }
}

/// `MappedRwLockWriteGuard::try_map`: narrows the guard of a list to the
/// component of `entity`, if it has one there; else the lock is released.
#[verifier::external_body]
fn write_component<'a, T: 'static + Component>(
    guard: MappedWriteGuard<'a, ComponentList<T>>,
    entity: Entity,
) -> (component: Option<MappedWriteGuard<'a, T>>) {
    match MappedRwLockWriteGuard::try_map(guard.guard, |list| list.get_mut(entity)) {
        Ok(guard) => Some(MappedWriteGuard { guard }),
        Err(_) => None,
    }
}

/// One registered component type: its identity and its list, behind a lock of
/// its own.
struct Slot {
    id: TypeId,
    list: RwLock<RawRwLock, Handle>,
}

/// The identities of `slots`, in order.
spec fn identities(slots: Seq<Slot>) -> Seq<TypeId> {
    Seq::new(slots.len(), |i: int| slots[i].id)
}

/// The entity component system. It issues entities, and keeps the components
/// of each registered type in a list of its own.
///
/// The registry of entities and each list have a lock of their own, so that
/// calls that take `&self` can be made from several threads at once. A call
/// takes the registry's lock first and a list's lock after it, and waits for
/// each: a thread that keeps a guard of a list must let go of it before it
/// makes a call that needs the registry or the same list.
pub struct Ecs {
    /// The registry of entities.
    entities: RwLock<RawRwLock, EntityRegistry>,
    /// The registered component types, in the order of their registration.
    /// They are few, and of a map keyed by `TypeId` nothing could be proved,
    /// so they are kept in a vector and found by comparing identities.
    components: Vec<Slot>,
}

impl Ecs {
    /// No component type is registered twice.
    #[verifier::type_invariant]
    spec fn inv(self) -> bool {
        self.registered().no_duplicates()
    }

    /// The identities of the registered component types, in the order of
    /// their registration.
    pub closed spec fn registered(&self) -> Seq<TypeId> {
        identities(self.components@)
    }

    /// Makes a system without entities or component types, with room for
    /// `initial_capacity` entities.
    pub fn new(initial_capacity: usize) -> (ecs: Self)
        ensures
            ecs.registered() == Seq::<TypeId>::empty(),
    {
        let ecs = Ecs {
            entities: new_lock(EntityRegistry::new(initial_capacity)),
            components: Vec::with_capacity(16),
        };
        assert(ecs.registered() =~= Seq::<TypeId>::empty());
        ecs
    }

    /// Moves the system out of `self`, which is left empty.
    fn take(&mut self) -> (whole: Self)
        ensures
            whole == *old(self),
    {
        let mut whole = Ecs { entities: new_lock(EntityRegistry::new(0)), components: Vec::new() };
        assert(whole.registered() =~= Seq::<TypeId>::empty());
        std::mem::swap(self, &mut whole);
        whole
    }

    /// The position of the component type `id`, if it is registered.
    fn slot_of(&self, id: &TypeId) -> (slot: Option<usize>)
        ensures
            self.registered().no_duplicates(),
            match slot {
                Some(index) => index < self.registered().len() && self.registered()[index as int]
                    == *id,
                None => !self.registered().contains(*id),
            },
    {
        proof {
            use_type_invariant(self);
        }
        let count: usize = self.components.len();
        let mut index: usize = 0;
        while index < count
            invariant
                self.registered().no_duplicates(),
                count == self.components@.len(),
                index <= count,
                forall|i: int| 0 <= i < index ==> self.registered()[i] != *id,
            decreases count - index,
        {
            if same_type(&self.components[index].id, id) {
                return Some(index);
            }
            index = index + 1;
        }
        None
    }

    /// The lock of the list of the component type `id`, if that type is
    /// registered.
    fn lock_of(&self, id: &TypeId) -> (lock: Result<&RwLock<RawRwLock, Handle>, EcsError>)
        ensures
            self.registered().no_duplicates(),
            match lock {
                Ok(found) => {
                    &&& self.registered().contains(*id)
                    &&& *found == self.components@[self.registered().index_of(*id)].list
                },
                Err(error) => {
                    &&& !self.registered().contains(*id)
                    &&& error == EcsError::ComponentTypeUnregistered
                },
            },
    {
        match self.slot_of(id) {
            Some(index) => {
                proof {
                    let found = self.registered().index_of(*id);
                    assert(self.registered()[index as int] == *id);
                    assert(self.registered().contains(*id));
                    assert(self.registered()[found] == *id);
                }
                Ok(&self.components[index].list)
            },
            None => Err(EcsError::ComponentTypeUnregistered),
        }
    }

    /// Registers `list` under the component type `id`, unless that type is
    /// registered already.
    pub(crate) fn register_as(&mut self, id: TypeId, list: Handle) -> (result: Result<
        (),
        EcsError,
    >)
        ensures
            final(self).registered().no_duplicates(),
            match result {
                Ok(_) => {
                    &&& !old(self).registered().contains(id)
                    &&& final(self).registered() == old(self).registered().push(id)
                },
                Err(error) => {
                    &&& error == EcsError::AlreadyRegistered
                    &&& old(self).registered().contains(id)
                    &&& final(self).registered() == old(self).registered()
                },
            },
    {
        if self.slot_of(&id).is_some() {
            return Err(EcsError::AlreadyRegistered);
        }
        let Ecs { entities, mut components } = self.take();
        components.push(Slot { id, list: new_lock(list) });
        assert(identities(components@) =~= old(self).registered().push(id));
        *self = Ecs { entities, components };
        Ok(())
    }

    /// Registers the component type `T`, with an empty list. A type can be
    /// registered once.
    pub fn register<T: 'static + Component + Send + Sync>(&mut self) -> (result: Result<
        (),
        EcsError,
    >)
        ensures
            final(self).registered().no_duplicates(),
            match result {
                Ok(_) => exists|id: TypeId|
                    {
                        &&& !old(self).registered().contains(id)
                        &&& final(self).registered() == old(self).registered().push(id)
                    },
                Err(error) => {
                    &&& error == EcsError::AlreadyRegistered
                    &&& old(self).registered().len() > 0
                    &&& final(self).registered() == old(self).registered()
                },
            },
    {
        let list: Handle = Box::new(ComponentList::<T>::default());
        self.register_as(ComponentList::<T>::id(), list)
    }

    /// Creates an entity and returns it. Fails only where every identifier has
    /// been issued.
    pub fn add_entity(&self) -> (created: Result<Entity, EcsError>)
        ensures
            created matches Ok(entity) ==> entity.0 < u64::MAX,
            created is Err ==> created == Err::<Entity, EcsError>(EcsError::IdentifiersExhausted),
    {
        let mut entities = lock_write(&self.entities);
        match write_mut(&mut entities).create_entity() {
            Some(entity) => Ok(entity),
            None => Err(EcsError::IdentifiersExhausted),
        }
    }

    /// Removes `entity`, and its components from the lists of all registered
    /// types. Returns `false`, and changes nothing, if the entity is not
    /// active. The registry stays locked until the last list is done, so that
    /// no call finds the entity gone from the registry and still in a list.
    pub fn remove_entity(&self, entity: Entity) -> (removed: bool)
        ensures
            removed ==> entity.0 < u64::MAX,
    {
        let mut entities = lock_write(&self.entities);
        let removed: bool = write_mut(&mut entities).remove_entity(entity);
        if !removed {
            return false;
        }
        let count: usize = self.components.len();
        let mut index: usize = 0;
        while index < count
            invariant
                count == self.components@.len(),
                index <= count,
                removed,
                entity.0 < u64::MAX,
            decreases count - index,
        {
            let mut list = lock_write(&self.components[index].list);
            cascade_step(write_mut(&mut list), removed, entity);
            index = index + 1;
        }
        removed
    }

    /// Attaches `data` to `entity` as its component of type `T`, in place of
    /// the one it may have. Returns `false`, and changes nothing, if the
    /// entity is not active; fails if the entity is active and `T` is not
    /// registered.
    pub fn add_component<T: 'static + Component>(&self, entity: Entity, data: T) -> (added: Result<
        bool,
        EcsError,
    >)
        ensures
            added matches Ok(done) ==> (done ==> entity.0 < u64::MAX),
            self.registered().len() == 0 ==> added == Ok::<bool, EcsError>(false) || added
                == Err::<bool, EcsError>(EcsError::ComponentTypeUnregistered),
            added is Err ==> added->Err_0 == EcsError::ComponentTypeUnregistered || added->Err_0
                == EcsError::TypeMismatch,
    {
        let entities = lock_read(&self.entities);
        let registry = read_ref(&entities);
        if !registry.contains(entity) {
            return Ok(false);
        }
        let lock = match self.lock_of(&ComponentList::<T>::id()) {
            Ok(lock) => lock,
            Err(error) => {
                return Err(error);
            },
        };
        let mut handle = lock_write(lock);
        match typed_mut::<T>(write_mut(&mut handle)) {
            Some(list) => Ok(attach(registry, list, entity, data)),
            None => Err(EcsError::TypeMismatch),
        }
    }

    /// The component of type `T` of `entity`: `None` if the entity is not
    /// active or has none; fails if the entity is active and `T` is not
    /// registered. The list of `T` stays locked for reading while the guard
    /// lives.
    pub fn get_component<'a, T: 'static + Component>(&'a self, entity: Entity) -> (found: Result<
        Option<MappedReadGuard<'a, T>>,
        EcsError,
    >)
        ensures
            found matches Ok(Some(_)) ==> entity.0 < u64::MAX,
            self.registered().len() == 0 ==> !(found matches Ok(Some(_))),
            found is Err ==> found->Err_0 == EcsError::ComponentTypeUnregistered || found->Err_0
                == EcsError::TypeMismatch,
    {
        let entities = lock_read(&self.entities);
        let registry = read_ref(&entities);
        if !registry.contains(entity) {
            return Ok(None);
        }
        let lock = match self.lock_of(&ComponentList::<T>::id()) {
            Ok(lock) => lock,
            Err(error) => {
                return Err(error);
            },
        };
        match read_list::<T>(lock_read(lock)) {
            Some(list) => {
                if lookup(registry, mapped_ref(&list), entity).is_some() {
                    Ok(read_component(list, entity))
                } else {
                    Ok(None)
                }
            },
            None => Err(EcsError::TypeMismatch),
        }
    }

    /// The component of type `T` of `entity`, for writing: `None` if the
    /// entity is not active or has none; fails if the entity is active and
    /// `T` is not registered. The list of `T` stays locked for writing while
    /// the guard lives.
    pub fn get_component_mut<'a, T: 'static + Component>(&'a self, entity: Entity) -> (found:
        Result<Option<MappedWriteGuard<'a, T>>, EcsError>)
        ensures
            found matches Ok(Some(_)) ==> entity.0 < u64::MAX,
            self.registered().len() == 0 ==> !(found matches Ok(Some(_))),
            found is Err ==> found->Err_0 == EcsError::ComponentTypeUnregistered || found->Err_0
                == EcsError::TypeMismatch,
    {
        let entities = lock_read(&self.entities);
        let registry = read_ref(&entities);
        if !registry.contains(entity) {
            return Ok(None);
        }
        let lock = match self.lock_of(&ComponentList::<T>::id()) {
            Ok(lock) => lock,
            Err(error) => {
                return Err(error);
            },
        };
        match write_list::<T>(lock_write(lock)) {
            Some(list) => {
                if lookup(registry, mapped_write_ref(&list), entity).is_some() {
                    Ok(write_component(list, entity))
                } else {
                    Ok(None)
                }
            },
            None => Err(EcsError::TypeMismatch),
        }
    }

    /// The whole list of the components of type `T`, locked for reading while
    /// the guard lives.
    pub fn list_component<'a, T: 'static + Component>(&'a self) -> (list: Result<
        MappedReadGuard<'a, ComponentList<T>>,
        EcsError,
    >)
        ensures
            self.registered().len() == 0 ==> list is Err,
            list is Err ==> list->Err_0 == EcsError::ComponentTypeUnregistered || list->Err_0
                == EcsError::TypeMismatch,
    {
        let lock = match self.lock_of(&ComponentList::<T>::id()) {
            Ok(lock) => lock,
            Err(error) => {
                return Err(error);
            },
        };
        match read_list::<T>(lock_read(lock)) {
            Some(list) => Ok(list),
            None => Err(EcsError::TypeMismatch),
        }
    }

    /// The whole list of the components of type `T`, locked for writing while
    /// the guard lives.
    pub fn list_component_mut<'a, T: 'static + Component>(&'a self) -> (list: Result<
        MappedWriteGuard<'a, ComponentList<T>>,
        EcsError,
    >)
        ensures
            self.registered().len() == 0 ==> list is Err,
            list is Err ==> list->Err_0 == EcsError::ComponentTypeUnregistered || list->Err_0
                == EcsError::TypeMismatch,
    {
        let lock = match self.lock_of(&ComponentList::<T>::id()) {
            Ok(lock) => lock,
            Err(error) => {
                return Err(error);
            },
        };
        match write_list::<T>(lock_write(lock)) {
            Some(list) => Ok(list),
            None => Err(EcsError::TypeMismatch),
        }
    }

    /// Takes the component of type `T` of `entity` out of its list, and
    /// returns it, if the entity has one.
    pub fn remove_component<T: 'static + Component>(&mut self, entity: Entity) -> (removed: Result<
        Option<T>,
        EcsError,
    >)
        ensures
            final(self).registered() == old(self).registered(),
            old(self).registered().len() == 0 ==> removed is Err,
            removed is Err ==> removed->Err_0 == EcsError::ComponentTypeUnregistered
                || removed->Err_0 == EcsError::TypeMismatch,
    {
        let lock = match self.lock_of(&ComponentList::<T>::id()) {
            Ok(lock) => lock,
            Err(error) => {
                return Err(error);
            },
        };
        let mut handle = lock_write(lock);
        match typed_mut::<T>(write_mut(&mut handle)) {
            Some(list) => Ok(list.remove(entity)),
            None => Err(EcsError::TypeMismatch),
        }
    }
}

} // verus!
