//! The entity registry: which identifiers have been issued, and which of them
//! are still active.

use std::collections::HashSet;
use vstd::prelude::*;

use crate::spec::Entity;

verus! {

broadcast use vstd::std_specs::hash::group_hash_axioms;

/// What a registry holds, as mathematics: how many identifiers it has issued,
/// and the set of entities that are active.
pub struct RegistryModel {
    pub issued: nat,
    pub active: Set<Entity>,
}

/// One call on a registry.
pub enum RegistryOp {
    Create,
    Remove(Entity),
}

impl RegistryModel {
    /// Every active entity has an identifier that was issued, and the count
    /// of the identifiers issued fits the counter: the largest number is never
    /// issued.
    pub open spec fn wf(self) -> bool {
        &&& self.issued <= u64::MAX
        &&& forall|e: Entity| self.active.contains(e) ==> e.0 < self.issued
    }

    /// The registry that has issued nothing.
    pub open spec fn empty() -> Self {
        RegistryModel { issued: 0, active: Set::empty() }
    }

    /// Whether an identifier is left to issue.
    pub open spec fn can_create(self) -> bool {
        self.issued < u64::MAX
    }

    /// The entity that the next creation returns, where one is left.
    pub open spec fn next_entity(self) -> Entity {
        Entity(self.issued as u64)
    }

    /// The registry after a creation: the next identifier is issued and
    /// active. Where none is left, nothing changes.
    pub open spec fn create(self) -> Self {
        if self.can_create() {
            RegistryModel { issued: self.issued + 1, active: self.active.insert(self.next_entity()) }
        } else {
            self
        }
    }

    /// The registry after the removal of `entity`.
    pub open spec fn remove(self, entity: Entity) -> Self {
        RegistryModel { issued: self.issued, active: self.active.remove(entity) }
    }

    /// The registry after one call.
    pub open spec fn step(self, op: RegistryOp) -> Self {
        match op {
            RegistryOp::Create => self.create(),
            RegistryOp::Remove(entity) => self.remove(entity),
        }
    }

    /// The registry after the calls `ops`, made in order.
    pub open spec fn run(self, ops: Seq<RegistryOp>) -> Self
        decreases ops.len(),
    {
        if ops.len() == 0 {
            self
        } else {
            self.run(ops.drop_last()).step(ops.last())
        }
    }

    /// The entities that the creations among `ops` return, in order.
    pub open spec fn created(self, ops: Seq<RegistryOp>) -> Seq<Entity>
        decreases ops.len(),
    {
        if ops.len() == 0 {
            Seq::empty()
        } else {
            let before = self.run(ops.drop_last());
            let earlier = self.created(ops.drop_last());
            if ops.last() is Create && before.can_create() {
                earlier.push(before.next_entity())
            } else {
                earlier
            }
        }
    }
}

/// Identifiers are issued in strictly increasing order, whatever removals come
/// between the creations: of the entities that a run of calls creates, each
/// has a larger identifier than those created before it, and none has one
/// that was issued before the run.
pub proof fn lemma_created_strictly_increasing(start: RegistryModel, ops: Seq<RegistryOp>)
    ensures
        start.issued <= start.run(ops).issued,
        forall|i: int|
            0 <= i < start.created(ops).len() ==> start.issued <= (#[trigger] start.created(
                ops,
            )[i]).0 < start.run(ops).issued,
        forall|i: int, j: int|
            0 <= i < j < start.created(ops).len() ==> (#[trigger] start.created(ops)[i]).0 < (
            #[trigger] start.created(ops)[j]).0,
    decreases ops.len(),
{
    if ops.len() > 0 {
        lemma_created_strictly_increasing(start, ops.drop_last());
        let before = start.run(ops.drop_last());
        let earlier = start.created(ops.drop_last());
        let ids = start.created(ops);
        if ops.last() is Create && before.can_create() {
            assert(before.next_entity().0 == before.issued);
            assert(ids == earlier.push(before.next_entity()));
            assert forall|i: int| 0 <= i < ids.len() implies start.issued <= (#[trigger] ids[i]).0
                < start.run(ops).issued by {
                if i < earlier.len() {
                    assert(ids[i] == earlier[i]);
                }
            }
            assert forall|i: int, j: int| 0 <= i < j < ids.len() implies (#[trigger] ids[i]).0 < (
            #[trigger] ids[j]).0 by {
                assert(ids[i] == earlier[i]);
                if j < earlier.len() {
                    assert(ids[j] == earlier[j]);
                }
            }
        } else {
            assert(ids == earlier);
        }
    }
}

/// A run of calls keeps every active entity among the issued ones, so that a
/// creation never returns an entity that is active.
pub proof fn lemma_run_keeps_wf(start: RegistryModel, ops: Seq<RegistryOp>)
    requires
        start.wf(),
    ensures
        start.run(ops).wf(),
        start.run(ops).can_create() ==> !start.run(ops).active.contains(
            start.run(ops).next_entity(),
        ),
    decreases ops.len(),
{
    if ops.len() > 0 {
        lemma_run_keeps_wf(start, ops.drop_last());
    }
}

/// No identifier is issued twice: an entity whose identifier was issued and
/// that is not active, because it was removed, stays inactive whatever calls
/// follow.
pub proof fn lemma_removed_stays_inactive(
    start: RegistryModel,
    ops: Seq<RegistryOp>,
    entity: Entity,
)
    requires
        entity.0 < start.issued,
        !start.active.contains(entity),
    ensures
        !start.run(ops).active.contains(entity),
    decreases ops.len(),
{
    if ops.len() > 0 {
        lemma_removed_stays_inactive(start, ops.drop_last(), entity);
        lemma_created_strictly_increasing(start, ops.drop_last());
    }
}

/// The registry of entities: a counter of the identifiers issued so far and
/// the set of active entities.
pub struct EntityRegistry {
    /// The identifier that the next entity gets.
    next: u64,
    /// The identifiers of the active entities.
    active: HashSet<u64>,
}

impl View for EntityRegistry {
    type V = RegistryModel;

    closed spec fn view(&self) -> RegistryModel {
        RegistryModel {
            issued: self.next as nat,
            active: Set::new(|e: Entity| self.active@.contains(e.0)),
        }
    }
}

impl EntityRegistry {
    #[verifier::type_invariant]
    spec fn inv(self) -> bool {
        forall|id: u64| self.active@.contains(id) ==> id < self.next
    }

    /// Moves the registry out of `self`, which is left empty: the counter and
    /// the set can only be changed together.
    fn take(&mut self) -> (whole: Self)
        ensures
            whole == *old(self),
    {
        let mut whole = EntityRegistry { next: 0, active: HashSet::new() };
        std::mem::swap(self, &mut whole);
        whole
    }

    /// Makes a registry that has issued nothing, with room for
    /// `initial_capacity` active entities.
    pub fn new(initial_capacity: usize) -> (registry: Self)
        ensures
            registry@ == RegistryModel::empty(),
    {
        let registry = EntityRegistry { next: 0, active: HashSet::with_capacity(initial_capacity) };
        assert(registry@.active =~= Set::<Entity>::empty());
        registry
    }

    /// Issues the next identifier and marks its entity active. Returns `None`,
    /// and changes nothing, where every identifier has been issued.
    pub fn create_entity(&mut self) -> (created: Option<Entity>)
        ensures
            old(self)@.wf(),
            final(self)@.wf(),
            final(self)@ == old(self)@.create(),
            created == if old(self)@.can_create() {
                Some(old(self)@.next_entity())
            } else {
                None
            },
    {
        proof {
            use_type_invariant(&*self);
        }
        if self.next == u64::MAX {
            return None;
        }
        let EntityRegistry { next, mut active } = self.take();
        active.insert(next);
        *self = EntityRegistry { next: next + 1, active };
        assert(self@.active =~= old(self)@.active.insert(Entity(next)));
        Some(Entity(next))
    }

    /// Marks `entity` inactive. Returns whether it was active.
    pub fn remove_entity(&mut self, entity: Entity) -> (removed: bool)
        ensures
            old(self)@.wf(),
            final(self)@.wf(),
            final(self)@ == old(self)@.remove(entity),
            removed == old(self)@.active.contains(entity),
    {
        proof {
            use_type_invariant(&*self);
        }
        let EntityRegistry { next, mut active } = self.take();
        let removed: bool = active.remove(&entity.0);
        *self = EntityRegistry { next, active };
        assert(self@.active =~= old(self)@.active.remove(entity));
        removed
    }

    /// Whether `entity` is active.
    pub fn contains(&self, entity: Entity) -> (active: bool)
        ensures
            self@.wf(),
            active == self@.active.contains(entity),
    {
        proof {
            use_type_invariant(self);
        }
        self.active.contains(&entity.0)
    }
}

} // verus!
