//! The dense, entity-indexed list that stores the components of one type.

use std::any::TypeId;
use std::collections::HashMap;
use vstd::prelude::*;
use vstd::std_specs::iter::IteratorSpec;

use crate::erased::{erase_mut, erase_ref, type_id_of, AnyMut, AnyRef};
use crate::spec::{swap_removed, Component, ComponentListBase, Entity};

verus! {

broadcast use vstd::std_specs::hash::group_hash_axioms;

/// A vector of components that is indexable by entity.
///
/// The components lie densely in the order in which their entities were first
/// inserted, except that a removal moves the last component into the gap.
pub struct ComponentList<T: Component> {
    /// Maps entity identifiers to positions.
    e_to_i: HashMap<u64, usize>,
    /// Maps positions to entity identifiers.
    i_to_e: HashMap<usize, u64>,
    /// The components, by position.
    data: Vec<T>,
}

/// `std::slice::IterMut`, the iterator that hands out the elements of a slice
/// for writing.
#[verifier::external_type_specification]
#[verifier::external_body]
#[verifier::reject_recursive_types(T)]
pub struct ExIterMut<'a, T: 'a>(std::slice::IterMut<'a, T>);

/// `Vec::iter_mut` (the slice method): an iterator that hands out each element
/// for writing. It cannot change the vector's length.
#[verifier::external_body]
fn vec_iter_mut<'a, T>(v: &'a mut Vec<T>) -> (iter: std::slice::IterMut<'a, T>)
    ensures
        final(v)@.len() == old(v)@.len(),
    no_unwind
{
    v.iter_mut()
}

/// `Vec::capacity`: the number of elements that the vector has room for. It
/// depends on what the allocator gave, so nothing is claimed of it here.
#[verifier::external_body]
fn vec_capacity<T>(v: &Vec<T>) -> (capacity: usize) {
    v.capacity()
}

impl<T: Component> ComponentList<T> {
    /// The two maps are inverses of each other and cover exactly the occupied
    /// positions of the data.
    #[verifier::type_invariant]
    spec fn inv(self) -> bool {
        &&& forall|e: u64| #[trigger]
            self.e_to_i@.contains_key(e) ==> {
                &&& self.e_to_i@[e] < self.data@.len()
                &&& self.i_to_e@.contains_key(self.e_to_i@[e])
                &&& self.i_to_e@[self.e_to_i@[e]] == e
            }
        &&& forall|i: usize| #[trigger]
            self.i_to_e@.contains_key(i) ==> {
                &&& i < self.data@.len()
                &&& self.e_to_i@.contains_key(self.i_to_e@[i])
                &&& self.e_to_i@[self.i_to_e@[i]] == i
            }
        &&& forall|i: usize| i < self.data@.len() ==> #[trigger] self.i_to_e@.contains_key(i)
    }

    /// The entities that have a component here, by position.
    pub closed spec fn entities(&self) -> Seq<Entity> {
        Seq::new(self.data@.len(), |i: int| Entity(self.i_to_e@[i as usize]))
    }

    /// The components, by position.
    pub closed spec fn values(&self) -> Seq<T> {
        self.data@
    }

    /// Every position holds one entity and one component, and no entity holds
    /// two positions.
    pub open spec fn wf(&self) -> bool {
        &&& self.entities().len() == self.values().len()
        &&& self.entities().no_duplicates()
    }

    /// Whether `entity` has a component in this list.
    pub open spec fn has(&self, entity: Entity) -> bool {
        self.entities().contains(entity)
    }

    /// The position of `entity`, where it has a component.
    pub open spec fn index_of(&self, entity: Entity) -> int {
        self.entities().index_of(entity)
    }

    /// The component of `entity`, where it has one.
    pub open spec fn component(&self, entity: Entity) -> T {
        self.values()[self.index_of(entity)]
    }

    /// Whether `after` is `before` with the component of `entity` set to
    /// `data`: in place where the entity had one, else in a new last position.
    pub open spec fn inserted(before: Self, after: Self, entity: Entity, data: T) -> bool {
        if before.has(entity) {
            &&& after.entities() == before.entities()
            &&& after.values() == before.values().update(before.index_of(entity), data)
        } else {
            &&& after.entities() == before.entities().push(entity)
            &&& after.values() == before.values().push(data)
        }
    }

    /// Whether `after` is `before` without the component of `entity`: where the
    /// entity had one, the last position has moved into its place.
    pub open spec fn removed(before: Self, after: Self, entity: Entity) -> bool {
        if before.has(entity) {
            &&& after.entities() == swap_removed(before.entities(), before.index_of(entity))
            &&& after.values() == swap_removed(before.values(), before.index_of(entity))
        } else {
            &&& after.entities() == before.entities()
            &&& after.values() == before.values()
        }
    }

    /// What the invariant says of the model: it is well formed, an entity has
    /// a component exactly when the map from entities knows it, and its
    /// position is the one that the map gives.
    proof fn lemma_model(self)
        requires
            self.inv(),
        ensures
            self.wf(),
            forall|e: Entity|
                #![trigger self.has(e)]
                #![trigger self.e_to_i@.contains_key(e.0)]
                self.has(e) <==> self.e_to_i@.contains_key(e.0),
            forall|e: Entity| #[trigger] self.has(e) ==> self.index_of(e) == self.e_to_i@[e.0],
    {
        let s = self.entities();
        assert(self.data.len() == self.data@.len());
        assert forall|i: int, j: int| 0 <= i < s.len() && 0 <= j < s.len() && i != j implies s[i]
            != s[j] by {
            assert(self.i_to_e@.contains_key(i as usize));
            assert(self.i_to_e@.contains_key(j as usize));
        }
        assert forall|e: Entity|
            #![trigger self.has(e)]
            #![trigger self.e_to_i@.contains_key(e.0)]
            self.has(e) <==> self.e_to_i@.contains_key(e.0) by {
            if self.has(e) {
                let i = choose|i: int| 0 <= i < s.len() && s[i] == e;
                assert(self.i_to_e@.contains_key(i as usize));
            }
            if self.e_to_i@.contains_key(e.0) {
                let i = self.e_to_i@[e.0];
                assert(s[i as int] == e);
            }
        }
        assert forall|e: Entity| #[trigger] self.has(e) implies self.index_of(e)
            == self.e_to_i@[e.0] by {
            let i = self.e_to_i@[e.0];
            assert(s[i as int] == e);
            let k = s.index_of(e);
            assert(0 <= k < s.len() && s[k] == e);
        }
    }

    /// Moves the list out of `self`, which is left empty: the parts of a list
    /// can only be changed together.
    fn take(&mut self) -> (whole: Self)
        ensures
            whole == *old(self),
    {
        let mut whole = ComponentList {
            e_to_i: HashMap::new(),
            i_to_e: HashMap::new(),
            data: Vec::new(),
        };
        std::mem::swap(self, &mut whole);
        whole
    }

    /// Makes an empty list with room for `initial_capacity` components.
    pub fn new(initial_capacity: usize) -> (list: Self)
        ensures
            list.wf(),
            list.entities() == Seq::<Entity>::empty(),
            list.values() == Seq::<T>::empty(),
    {
        let list = ComponentList {
            e_to_i: HashMap::with_capacity(initial_capacity),
            i_to_e: HashMap::with_capacity(initial_capacity),
            data: Vec::with_capacity(initial_capacity),
        };
        proof {
            list.lemma_model();
        }
        list
    }

    /// Sets the component of `entity` to `data`: in place where the entity
    /// already has one, else in a new position at the end. A full list doubles
    /// its room first.
    pub fn insert(&mut self, entity: Entity, data: T)
        ensures
            old(self).wf(),
            final(self).wf(),
            Self::inserted(*old(self), *final(self), entity, data),
    {
        proof {
            use_type_invariant(&*self);
            self.lemma_model();
        }
        let found: Option<usize> = match self.e_to_i.get(&entity.0) {
            Some(index) => Some(*index),
            None => None,
        };
        match found {
            Some(index) => {
                assert(self.has(entity) && self.index_of(entity) == index);
                self.data[index] = data;
                proof {
                    assert(self.entities() =~= old(self).entities());
                }
            },
            None => {
                assert(!self.has(entity));
                let ComponentList { mut e_to_i, mut i_to_e, data: mut components } = self.take();
                let index: usize = components.len();
                e_to_i.insert(entity.0, index);
                i_to_e.insert(index, entity.0);
                let capacity: usize = vec_capacity(&components);
                if index >= capacity {
                    components.reserve(capacity);
                }
                components.push(data);
                *self = ComponentList { e_to_i, i_to_e, data: components };
                proof {
                    assert(self.entities() =~= old(self).entities().push(entity));
                }
            },
        }
        proof {
            self.lemma_model();
        }
    }

    /// The component of `entity`, if it has one here.
    pub fn get<'a>(&'a self, entity: Entity) -> (found: Option<&'a T>)
        ensures
            self.wf(),
            match found {
                Some(component) => self.has(entity) && *component == self.component(entity),
                None => !self.has(entity),
            },
    {
        proof {
            use_type_invariant(self);
            self.lemma_model();
        }
        match self.e_to_i.get(&entity.0) {
            Some(index) => Some(&self.data[*index]),
            None => None,
        }
    }

    /// The component of `entity`, if it has one here, for writing. What the
    /// caller leaves in it is the entity's component afterwards; nothing else
    /// in the list changes.
    pub fn get_mut<'a>(&'a mut self, entity: Entity) -> (found: Option<&'a mut T>)
        ensures
            old(self).wf(),
            final(self).wf(),
            final(self).entities() == old(self).entities(),
            match found {
                Some(component) => {
                    &&& old(self).has(entity)
                    &&& *component == old(self).component(entity)
                    &&& final(self).values() =~= old(self).values().update(
                        old(self).index_of(entity),
                        *final(component),
                    )
                },
                None => !old(self).has(entity) && final(self).values() == old(self).values(),
            },
    {
        proof {
            use_type_invariant(&*self);
            self.lemma_model();
        }
        let found: Option<usize> = match self.e_to_i.get(&entity.0) {
            Some(index) => Some(*index),
            None => None,
        };
        match found {
            Some(index) => {
                assert(self.has(entity) && self.index_of(entity) == index);
                Some(&mut self.data[index])
            },
            None => None,
        }
    }

    /// Takes the component of `entity` out of the list, if it has one. The last
    /// component moves into the position that this leaves empty.
    pub fn remove(&mut self, entity: Entity) -> (removed: Option<T>)
        ensures
            old(self).wf(),
            final(self).wf(),
            Self::removed(*old(self), *final(self), entity),
            removed == if old(self).has(entity) {
                Some(old(self).component(entity))
            } else {
                None
            },
    {
        proof {
            use_type_invariant(&*self);
            self.lemma_model();
        }
        let index: usize = match self.e_to_i.get(&entity.0) {
            Some(index) => *index,
            None => {
                return None;
            },
        };
        let ComponentList { mut e_to_i, mut i_to_e, mut data } = self.take();
        let last: usize = data.len() - 1;
        e_to_i.remove(&entity.0);
        let moved: Option<u64> = i_to_e.remove(&last);
        let component: T = data.swap_remove(index);
        if index != last {
            match moved {
                Some(last_entity) => {
                    i_to_e.insert(index, last_entity);
                    e_to_i.insert(last_entity, index);
                },
                None => {},
            }
        }
        *self = ComponentList { e_to_i, i_to_e, data };
        proof {
            self.lemma_model();
            assert(old(self).has(entity) && old(self).index_of(entity) == index);
            assert(self.entities() =~= swap_removed(old(self).entities(), index as int));
        }
        Some(component)
    }

    /// An iterator over the components, by position.
    pub fn iter(&self) -> (iter: std::slice::Iter<'_, T>)
        ensures
            iter.remaining() == self.values().as_ref(),
    {
        self.data.iter()
    }

    /// An iterator over the components, by position, for writing. It can change
    /// the components, but neither their number nor their entities.
    pub fn iter_mut(&mut self) -> (iter: std::slice::IterMut<'_, T>)
        ensures
            final(self).wf(),
            final(self).entities() == old(self).entities(),
            final(self).values().len() == old(self).values().len(),
    {
        proof {
            use_type_invariant(&*self);
            self.lemma_model();
        }
        vec_iter_mut(&mut self.data)
    }

    /// The identity of the component type.
    pub fn id() -> (id: TypeId) where T: 'static {
        type_id_of::<T>()
    }

    /// The component at position `index`.
    pub fn index(&self, index: usize) -> (component: &T)
        requires
            index < self.values().len(),
        ensures
            *component == self.values()[index as int],
    {
        &self.data[index]
    }

    /// The component at position `index`, for writing. Nothing else in the
    /// list changes.
    pub fn index_mut(&mut self, index: usize) -> (component: &mut T)
        requires
            index < old(self).values().len(),
        ensures
            *component == old(self).values()[index as int],
            final(self).wf(),
            final(self).entities() == old(self).entities(),
            final(self).values() =~= old(self).values().update(index as int, *final(component)),
    {
        proof {
            use_type_invariant(&*self);
            self.lemma_model();
        }
        &mut self.data[index]
    }
}

/// In a sequence without duplicates, an element is found where it stands.
proof fn lemma_index_of_unique<A>(s: Seq<A>, i: int)
    requires
        s.no_duplicates(),
        0 <= i < s.len(),
    ensures
        s.contains(s[i]),
        s.index_of(s[i]) == i,
{
    let k = s.index_of(s[i]);
    assert(0 <= k < s.len() && s[k] == s[i]);
}

/// Removal by swapping keeps a sequence free of duplicates.
pub(crate) proof fn lemma_swap_removed_no_duplicates<A>(s: Seq<A>, i: int)
    requires
        s.no_duplicates(),
        0 <= i < s.len(),
    ensures
        swap_removed(s, i).no_duplicates(),
        swap_removed(s, i).len() == s.len() - 1,
        !swap_removed(s, i).contains(s[i]),
        forall|a: A| a != s[i] && s.contains(a) ==> #[trigger] swap_removed(s, i).contains(a),
{
    let t = swap_removed(s, i);
    let last = s.len() - 1;
    assert forall|j: int| 0 <= j < t.len() implies #[trigger] t[j] == (if j == i {
        s[last]
    } else {
        s[j]
    }) by {}
    assert forall|a: A| a != s[i] && s.contains(a) implies #[trigger] t.contains(a) by {
        let k = s.index_of(a);
        if k == last {
            assert(t[i] == a);
        } else {
            assert(t[k] == a);
        }
    }
}

/// Insert-overwrite law: when a component is inserted for an entity, and then
/// another for the same entity, the second insertion leaves the entities and
/// the length of the list as they were, the entity has the second component
/// and holds one position only, and every other entity keeps its component.
pub proof fn lemma_insert_overwrites<T: Component>(
    before: ComponentList<T>,
    between: ComponentList<T>,
    after: ComponentList<T>,
    entity: Entity,
    first: T,
    second: T,
)
    requires
        before.wf(),
        ComponentList::inserted(before, between, entity, first),
        ComponentList::inserted(between, after, entity, second),
    ensures
        after.wf(),
        after.entities() == between.entities(),
        after.values().len() == between.values().len(),
        after.has(entity),
        after.component(entity) == second,
        forall|i: int|
            0 <= i < after.entities().len() && #[trigger] after.entities()[i] == entity ==> i
                == after.index_of(entity),
        forall|other: Entity|
            other != entity && #[trigger] between.has(other) ==> after.has(other)
                && after.component(other) == between.component(other),
{
    let s = between.entities();
    if before.has(entity) {
        assert(s == before.entities());
    } else {
        assert(s[s.len() - 1] == entity);
        assert forall|i: int, j: int| 0 <= i < s.len() && 0 <= j < s.len() && i != j implies s[i]
            != s[j] by {
            if i == s.len() - 1 {
                assert(before.entities()[j] == s[j]);
            } else if j == s.len() - 1 {
                assert(before.entities()[i] == s[i]);
            }
        }
    }
    assert(between.has(entity));
    let k = between.index_of(entity);
    assert(0 <= k < s.len() && s[k] == entity);
    assert forall|i: int| 0 <= i < s.len() && #[trigger] s[i] == entity implies i == k by {}
    assert forall|other: Entity| other != entity && #[trigger] between.has(other) implies after.has(
        other,
    ) && after.component(other) == between.component(other) by {
        let j = between.index_of(other);
        assert(0 <= j < s.len() && s[j] == other);
    }
}

/// Swap-remove law: when an entity that holds another position than the last
/// is removed, the list is shorter by one, the removed entity is gone, the
/// entity that held the last position holds the vacated one, and every other
/// entity keeps its position; each remaining entity is still found at its
/// position, with the component it had.
pub proof fn lemma_remove_moves_last<T: Component>(
    before: ComponentList<T>,
    after: ComponentList<T>,
    entity: Entity,
)
    requires
        before.wf(),
        before.has(entity),
        before.index_of(entity) != before.entities().len() - 1,
        ComponentList::removed(before, after, entity),
    ensures
        after.wf(),
        after.entities().len() == before.entities().len() - 1,
        !after.has(entity),
        after.has(before.entities().last()),
        after.index_of(before.entities().last()) == before.index_of(entity),
        forall|other: Entity|
            other != entity && #[trigger] before.has(other) ==> {
                &&& after.has(other)
                &&& after.entities()[after.index_of(other)] == other
                &&& after.component(other) == before.component(other)
                &&& other != before.entities().last() ==> after.index_of(other) == before.index_of(
                    other,
                )
            },
{
    let s = before.entities();
    let t = after.entities();
    let i = before.index_of(entity);
    let last = s.len() - 1;
    assert(0 <= i < s.len() && s[i] == entity);
    lemma_swap_removed_no_duplicates(s, i);
    assert(t[i] == s[last]);
    lemma_index_of_unique(t, i);
    assert forall|other: Entity| other != entity && #[trigger] before.has(other) implies {
        &&& after.has(other)
        &&& after.entities()[after.index_of(other)] == other
        &&& after.component(other) == before.component(other)
        &&& other != before.entities().last() ==> after.index_of(other) == before.index_of(other)
    } by {
        let j = before.index_of(other);
        assert(0 <= j < s.len() && s[j] == other);
        if j == last {
            assert(after.index_of(other) == i);
        } else {
            assert(t[j] == s[j]);
            lemma_index_of_unique(t, j);
        }
    }
}

/// A removal takes the removed entity out of the list, and no other.
pub proof fn lemma_removed_keeps_the_others<T: Component>(
    before: ComponentList<T>,
    after: ComponentList<T>,
    entity: Entity,
)
    requires
        before.wf(),
        ComponentList::removed(before, after, entity),
    ensures
        after.wf(),
        !after.has(entity),
        forall|other: Entity| other != entity ==> (#[trigger] after.has(other) <==> before.has(other)),
{
    let s = before.entities();
    let t = after.entities();
    if before.has(entity) {
        let i = before.index_of(entity);
        assert(0 <= i < s.len() && s[i] == entity);
        lemma_swap_removed_no_duplicates(s, i);
        assert forall|other: Entity| other != entity && #[trigger] after.has(other) implies before.has(
            other,
        ) by {
            let j = t.index_of(other);
            assert(0 <= j < t.len() && t[j] == other);
            if j == i {
                assert(s[s.len() - 1] == other);
            } else {
                assert(s[j] == other);
            }
        }
    }
}

impl<T: 'static + Component + Send + Sync> ComponentListBase for ComponentList<T> {
    open spec fn members(&self) -> Seq<Entity> {
        self.entities()
    }

    fn as_any(&self) -> (any: AnyRef<'_>) {
        erase_ref(self)
    }

    fn as_any_mut(&mut self) -> (any: AnyMut<'_>) {
        erase_mut(self)
    }

    fn id(&self) -> TypeId {
        ComponentList::<T>::id()
    }

    fn get_index(&self, entity: Entity) -> (index: Option<usize>) {
        proof {
            use_type_invariant(self);
            self.lemma_model();
        }
        match self.e_to_i.get(&entity.0) {
            Some(index) => {
                assert(self.entities()[*index as int] == entity);
                Some(*index)
            },
            None => {
                assert(!self.has(entity));
                None
            },
        }
    }

    fn get_entity(&self, index: usize) -> (entity: Option<Entity>) {
        proof {
            use_type_invariant(self);
            self.lemma_model();
        }
        match self.i_to_e.get(&index) {
            Some(entity) => Some(Entity(*entity)),
            None => None,
        }
    }

    /// Drops the component of `entity` as `remove` does, without returning
    /// it: the components of the other entities stay with them.
    fn delete(&mut self, entity: Entity)
        ensures
            Self::removed(*old(self), *final(self), entity),
    {
        self.remove(entity);
        proof {
            lemma_removed_keeps_the_others(*old(self), *self, entity);
        }
    }
}

impl<T: Component + Clone> Clone for ComponentList<T> {
    /// A list with the same entities at the same positions, and a clone of
    /// each component.
    fn clone(&self) -> (copy: Self)
        ensures
            copy.wf(),
            copy.entities() == self.entities(),
            copy.values().len() == self.values().len(),
            forall|i: int|
                0 <= i < self.values().len() ==> cloned::<T>(
                    #[trigger] self.values()[i],
                    copy.values()[i],
                ),
    {
        proof {
            use_type_invariant(self);
            self.lemma_model();
        }
        let copy = ComponentList {
            e_to_i: self.e_to_i.clone(),
            i_to_e: self.i_to_e.clone(),
            data: self.data.clone(),
        };
        proof {
            copy.lemma_model();
            assert(copy.entities() =~= self.entities());
        }
        copy
    }
}

impl<T: Component> Default for ComponentList<T> {
    /// An empty list with room for 2048 components.
    fn default() -> (list: Self)
        ensures
            list.wf(),
            list.entities() == Seq::<Entity>::empty(),
            list.values() == Seq::<T>::empty(),
    {
        ComponentList::new(2048)
    }
}

impl<T: Component> IntoIterator for ComponentList<T> {
    type Item = T;

    type IntoIter = std::vec::IntoIter<T>;

    /// An iterator that hands out the components themselves, by position.
    fn into_iter(self) -> (iter: std::vec::IntoIter<T>)
        ensures
            iter.remaining() == self.values(),
    {
        self.data.into_iter()
    }
}

impl<'a, T: Component> IntoIterator for &'a ComponentList<T> {
    type Item = &'a T;

    type IntoIter = std::slice::Iter<'a, T>;

    /// An iterator over the components, by position.
    fn into_iter(self) -> (iter: std::slice::Iter<'a, T>)
        ensures
            iter.remaining() == self.values().as_ref(),
    {
        self.data.iter()
    }
}

impl<'a, T: Component> IntoIterator for &'a mut ComponentList<T> {
    type Item = &'a mut T;

    type IntoIter = std::slice::IterMut<'a, T>;

    /// An iterator over the components, by position, for writing.
    fn into_iter(self) -> (iter: std::slice::IterMut<'a, T>)
        ensures
            final(self).wf(),
            final(self).entities() == old(self).entities(),
            final(self).values().len() == old(self).values().len(),
    {
        self.iter_mut()
    }
}

} // verus!
