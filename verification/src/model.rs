//! The system as mathematics: which entities are active, and which entities
//! each list holds at which position. The calls on the system are steps of
//! this model, and what holds after every run of steps holds of the system
//! whenever no call is under way.

use vstd::prelude::*;

use crate::list::lemma_swap_removed_no_duplicates;
use crate::registry::RegistryModel;
use crate::spec::{attached, detached, Entity};

verus! {

/// What a system holds, as far as entities go: the registry, and for each
/// registered component type, in the order of registration, the entities of
/// its list by position.
pub struct StoreModel {
    pub registry: RegistryModel,
    pub lists: Seq<Seq<Entity>>,
}

/// One call on a system. A component type is named by its place in the order
/// of registration.
pub enum StoreOp {
    Register,
    AddEntity,
    RemoveEntity(Entity),
    AddComponent(int, Entity),
    RemoveComponent(int, Entity),
}

impl StoreModel {
    /// The system without entities or component types.
    pub open spec fn empty() -> Self {
        StoreModel { registry: RegistryModel::empty(), lists: Seq::empty() }
    }

    /// The registry is well formed, no list holds an entity twice, and every
    /// entity in a list is active.
    pub open spec fn wf(self) -> bool {
        &&& self.registry.wf()
        &&& forall|i: int| 0 <= i < self.lists.len() ==> (#[trigger] self.lists[i]).no_duplicates()
        &&& forall|i: int, e: Entity|
            0 <= i < self.lists.len() && (#[trigger] self.lists[i]).contains(e)
                ==> #[trigger] self.registry.active.contains(e)
    }

    /// The system after the removal of `entity`: where it was active, it
    /// leaves the registry and every list; else nothing changes.
    pub open spec fn remove_entity(self, entity: Entity) -> Self {
        if self.registry.active.contains(entity) {
            StoreModel {
                registry: self.registry.remove(entity),
                lists: Seq::new(self.lists.len(), |i: int| detached(self.lists[i], entity)),
            }
        } else {
            self
        }
    }

    /// The system after a component of the type at `place` is attached to
    /// `entity`: nothing changes unless the type is registered and the entity
    /// active.
    pub open spec fn add_component(self, place: int, entity: Entity) -> Self {
        if 0 <= place < self.lists.len() && self.registry.active.contains(entity) {
            StoreModel {
                registry: self.registry,
                lists: self.lists.update(place, attached(self.lists[place], entity)),
            }
        } else {
            self
        }
    }

    /// The system after the component of the type at `place` is taken from
    /// `entity`.
    pub open spec fn remove_component(self, place: int, entity: Entity) -> Self {
        if 0 <= place < self.lists.len() {
            StoreModel {
                registry: self.registry,
                lists: self.lists.update(place, detached(self.lists[place], entity)),
            }
        } else {
            self
        }
    }

    /// The system after one call.
    pub open spec fn step(self, op: StoreOp) -> Self {
        match op {
            StoreOp::Register => StoreModel {
                registry: self.registry,
                lists: self.lists.push(Seq::empty()),
            },
            StoreOp::AddEntity => StoreModel { registry: self.registry.create(), lists: self.lists },
            StoreOp::RemoveEntity(entity) => self.remove_entity(entity),
            StoreOp::AddComponent(place, entity) => self.add_component(place, entity),
            StoreOp::RemoveComponent(place, entity) => self.remove_component(place, entity),
        }
    }

    /// The system after the calls `ops`, made in order.
    pub open spec fn run(self, ops: Seq<StoreOp>) -> Self
        decreases ops.len(),
    {
        if ops.len() == 0 {
            self
        } else {
            self.run(ops.drop_last()).step(ops.last())
        }
    }
}

/// Attaching keeps a list free of duplicates, and adds the entity and no
/// other.
pub proof fn lemma_attached(members: Seq<Entity>, entity: Entity)
    requires
        members.no_duplicates(),
    ensures
        attached(members, entity).no_duplicates(),
        forall|e: Entity|
            #[trigger] attached(members, entity).contains(e) <==> e == entity || members.contains(e),
{
    let after = attached(members, entity);
    if !members.contains(entity) {
        assert(after[after.len() - 1] == entity);
        assert forall|e: Entity| #[trigger] after.contains(e) implies e == entity
            || members.contains(e) by {
            let i = after.index_of(e);
            if i < members.len() {
                assert(members[i] == e);
            }
        }
        assert forall|e: Entity| members.contains(e) implies #[trigger] after.contains(e) by {
            let i = members.index_of(e);
            assert(after[i] == e);
        }
    }
}

/// Detaching keeps a list free of duplicates, and takes out the entity and no
/// other.
pub proof fn lemma_detached(members: Seq<Entity>, entity: Entity)
    requires
        members.no_duplicates(),
    ensures
        detached(members, entity).no_duplicates(),
        forall|e: Entity|
            #[trigger] detached(members, entity).contains(e) <==> e != entity && members.contains(e),
{
    let after = detached(members, entity);
    if members.contains(entity) {
        let i = members.index_of(entity);
        assert(0 <= i < members.len() && members[i] == entity);
        lemma_swap_removed_no_duplicates(members, i);
        assert forall|e: Entity| #[trigger] after.contains(e) implies e != entity
            && members.contains(e) by {
            let j = after.index_of(e);
            assert(0 <= j < after.len() && after[j] == e);
            if j == i {
                assert(members[members.len() - 1] == e);
            } else {
                assert(members[j] == e);
            }
        }
    }
}

/// One call keeps the system well formed.
pub proof fn lemma_step_keeps_wf(before: StoreModel, op: StoreOp)
    requires
        before.wf(),
    ensures
        before.step(op).wf(),
{
    let after = before.step(op);
    match op {
        StoreOp::Register => {
            assert forall|i: int| 0 <= i < after.lists.len() implies (#[trigger] after.lists[i])
                == (if i < before.lists.len() {
                before.lists[i]
            } else {
                Seq::<Entity>::empty()
            }) by {}
        },
        StoreOp::AddEntity => {},
        StoreOp::RemoveEntity(entity) => {
            if before.registry.active.contains(entity) {
                assert forall|i: int| 0 <= i < after.lists.len() implies {
                    &&& (#[trigger] after.lists[i]).no_duplicates()
                    &&& forall|e: Entity|
                        after.lists[i].contains(e) ==> after.registry.active.contains(e)
                } by {
                    lemma_detached(before.lists[i], entity);
                    assert forall|e: Entity| after.lists[i].contains(e) implies
                        after.registry.active.contains(e) by {
                        assert(before.lists[i].contains(e));
                    }
                }
            }
        },
        StoreOp::AddComponent(place, entity) => {
            if 0 <= place < before.lists.len() && before.registry.active.contains(entity) {
                lemma_attached(before.lists[place], entity);
                assert forall|i: int| 0 <= i < after.lists.len() implies {
                    &&& (#[trigger] after.lists[i]).no_duplicates()
                    &&& forall|e: Entity|
                        after.lists[i].contains(e) ==> after.registry.active.contains(e)
                } by {
                    if i != place {
                        assert(after.lists[i] == before.lists[i]);
                    }
                    assert forall|e: Entity| after.lists[i].contains(e) implies
                        after.registry.active.contains(e) by {
                        if e != entity || i != place {
                            assert(before.lists[i].contains(e));
                        }
                    }
                }
            }
        },
        StoreOp::RemoveComponent(place, entity) => {
            if 0 <= place < before.lists.len() {
                lemma_detached(before.lists[place], entity);
                assert forall|i: int| 0 <= i < after.lists.len() implies {
                    &&& (#[trigger] after.lists[i]).no_duplicates()
                    &&& forall|e: Entity|
                        after.lists[i].contains(e) ==> after.registry.active.contains(e)
                } by {
                    if i != place {
                        assert(after.lists[i] == before.lists[i]);
                    }
                    assert forall|e: Entity| after.lists[i].contains(e) implies
                        after.registry.active.contains(e) by {
                        assert(before.lists[i].contains(e));
                    }
                }
            }
        },
    }
}

/// Whatever calls are made, in whatever order, every list holds active
/// entities only, and each of them once: a list yields exactly the active
/// entities that have a component in it.
pub proof fn lemma_lists_hold_the_active(start: StoreModel, ops: Seq<StoreOp>)
    requires
        start.wf(),
    ensures
        start.run(ops).wf(),
        forall|i: int|
            0 <= i < start.run(ops).lists.len() ==> (#[trigger] start.run(ops).lists[i]).to_set()
                == Set::new(
                |e: Entity|
                    start.run(ops).registry.active.contains(e) && start.run(ops).lists[i].contains(
                        e,
                    ),
            ),
    decreases ops.len(),
{
    if ops.len() > 0 {
        lemma_lists_hold_the_active(start, ops.drop_last());
        lemma_step_keeps_wf(start.run(ops.drop_last()), ops.last());
    }
    let end = start.run(ops);
    assert forall|i: int| 0 <= i < end.lists.len() implies (#[trigger] end.lists[i]).to_set()
        == Set::new(|e: Entity| end.registry.active.contains(e) && end.lists[i].contains(e)) by {
        assert(end.lists[i].to_set() =~= Set::new(
            |e: Entity| end.registry.active.contains(e) && end.lists[i].contains(e),
        ));
    }
}

/// Once an entity is removed, no list holds it, whatever the lists held
/// before.
pub proof fn lemma_removed_entity_is_in_no_list(before: StoreModel, entity: Entity)
    requires
        before.wf(),
    ensures
        !before.remove_entity(entity).registry.active.contains(entity),
        forall|i: int|
            0 <= i < before.remove_entity(entity).lists.len() ==> !(
            #[trigger] before.remove_entity(entity).lists[i]).contains(entity),
{
    let after = before.remove_entity(entity);
    assert forall|i: int| 0 <= i < after.lists.len() implies !(#[trigger] after.lists[i]).contains(
        entity,
    ) by {
        if before.registry.active.contains(entity) {
            lemma_detached(before.lists[i], entity);
        } else {
            assert(after.lists[i] == before.lists[i]);
        }
    }
}

} // verus!
