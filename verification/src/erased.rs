//! Type identities and type-erased references to component lists, as the
//! standard library's `std::any` provides them.
//!
//! An erased reference still stands for the list that it was made from. What
//! is said of it here is said of that list's entities, which do not depend on
//! the type of the components.

use std::any::{Any, TypeId};
use vstd::prelude::*;

use crate::list::ComponentList;
use crate::spec::{Component, Entity};

verus! {

/// `std::any::TypeId`, the identity of a type: a value that is carried about
/// and compared, and nothing else.
#[verifier::external_type_specification]
#[verifier::external_body]
pub struct ExTypeId(TypeId);

/// A shared reference to a list whose component type is known only at run
/// time (`&dyn Any`).
#[verifier::external_body]
pub struct AnyRef<'a> {
    any: &'a dyn Any,
}

/// A mutable reference to a list whose component type is known only at run
/// time (`&mut dyn Any`).
#[verifier::external_body]
pub struct AnyMut<'a> {
    any: &'a mut dyn Any,
}

/// `TypeId::of`: the identity of the type `T`. Nothing is claimed of it here.
#[verifier::external_body]
pub(crate) fn type_id_of<T: 'static>() -> (id: TypeId) {
    TypeId::of::<T>()
}

/// `TypeId`'s `==`: two identities compare equal exactly when they are the same
/// identity.
#[verifier::external_body]
pub(crate) fn same_type(a: &TypeId, b: &TypeId) -> (same: bool)
    ensures
        same == (*a == *b),
{
    a == b
}

/// The entities, by position, of the list behind a shared erased reference.
pub uninterp spec fn members_behind(any: AnyRef<'_>) -> Seq<Entity>;

/// The entities, by position, of the list behind a mutable erased reference,
/// as they were when the reference was made.
pub uninterp spec fn members_behind_mut(any: AnyMut<'_>) -> Seq<Entity>;

/// The entities, by position, of the list behind a mutable erased reference,
/// as they are when the reference is given up.
pub uninterp spec fn members_left_behind(any: AnyMut<'_>) -> Seq<Entity>;

/// The coercion of a reference to `&dyn Any`, which forgets the list's type.
/// The reference stands for the same list, so the entities behind it are the
/// list's.
#[verifier::external_body]
pub(crate) fn erase_ref<'a, T: 'static + Component>(list: &'a ComponentList<T>) -> (any: AnyRef<
    'a,
>)
    ensures
        members_behind(any) == list.entities(),
{
    AnyRef { any: list }
}

/// The coercion of a mutable reference to `&mut dyn Any`, which forgets the
/// list's type. The reference stands for the same list: the entities behind
/// it are the list's, and those left behind it are the list's afterwards.
#[verifier::external_body]
pub(crate) fn erase_mut<'a, T: 'static + Component>(list: &'a mut ComponentList<T>) -> (any:
    AnyMut<'a>)
    ensures
        members_behind_mut(any) == old(list).entities(),
        members_left_behind(any) == final(list).entities(),
{
    AnyMut { any: list }
}

/// `<dyn Any>::downcast_ref`: the list behind the reference, if its components
/// are of type `T`. Nothing is claimed of when that is; the list that comes
/// back is the one behind the reference.
#[verifier::external_body]
pub(crate) fn downcast_ref<'a, T: 'static + Component>(any: AnyRef<'a>) -> (list: Option<
    &'a ComponentList<T>,
>)
    ensures
        list matches Some(found) ==> found.entities() == members_behind(any),
{
    any.any.downcast_ref::<ComponentList<T>>()
}

/// `<dyn Any>::downcast_mut`: the list behind the reference, for writing, if
/// its components are of type `T`. Nothing is claimed of when that is; the
/// list that comes back is the one behind the reference, and where none comes
/// back the list behind it stays as it was.
#[verifier::external_body]
pub(crate) fn downcast_mut<'a, T: 'static + Component>(any: AnyMut<'a>) -> (list: Option<
    &'a mut ComponentList<T>,
>)
    ensures
        match list {
            Some(list) => {
                &&& list.entities() == members_behind_mut(any)
                &&& final(list).entities() == members_left_behind(any)
            },
            None => members_left_behind(any) == members_behind_mut(any),
        },
{
    any.any.downcast_mut::<ComponentList<T>>()
}

} // verus!
