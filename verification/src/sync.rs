//! Reader-writer locks, as `parking_lot` provides them.
//!
//! What a lock holds can change between any two acquisitions, so nothing is
//! claimed here of the values that the guards give access to. What is known of
//! them is what their types' invariants say.

use parking_lot::lock_api::RwLock;
use parking_lot::{
    MappedRwLockReadGuard, MappedRwLockWriteGuard, RawRwLock, RwLockReadGuard, RwLockWriteGuard,
};
use vstd::prelude::*;

verus! {

/// `parking_lot::RawRwLock`, the lock without the value that it guards.
#[verifier::external_type_specification]
#[verifier::external_body]
pub struct ExRawRwLock(RawRwLock);

/// `lock_api::RwLock`, of which `parking_lot::RwLock` is the case with
/// `RawRwLock`: a value behind a reader-writer lock.
#[verifier::external_type_specification]
#[verifier::external_body]
#[verifier::reject_recursive_types(R)]
#[verifier::reject_recursive_types(T)]
pub struct ExRwLock<R, T: ?Sized>(RwLock<R, T>);

/// Shared access to what a lock holds (`parking_lot::RwLockReadGuard`). The
/// lock is released when the guard is dropped.
#[verifier::external_body]
#[verifier::reject_recursive_types(T)]
pub struct ReadGuard<'a, T: ?Sized> {
    pub(crate) guard: RwLockReadGuard<'a, T>,
}

/// Exclusive access to what a lock holds (`parking_lot::RwLockWriteGuard`).
/// The lock is released when the guard is dropped.
#[verifier::external_body]
#[verifier::reject_recursive_types(T)]
pub struct WriteGuard<'a, T: ?Sized> {
    pub(crate) guard: RwLockWriteGuard<'a, T>,
}

/// Shared access to a part of what a lock holds
/// (`parking_lot::MappedRwLockReadGuard`).
#[verifier::external_body]
#[verifier::reject_recursive_types(T)]
pub struct MappedReadGuard<'a, T: ?Sized> {
    pub(crate) guard: MappedRwLockReadGuard<'a, T>,
}

/// Exclusive access to a part of what a lock holds
/// (`parking_lot::MappedRwLockWriteGuard`).
#[verifier::external_body]
#[verifier::reject_recursive_types(T)]
pub struct MappedWriteGuard<'a, T: ?Sized> {
    pub(crate) guard: MappedRwLockWriteGuard<'a, T>,
}

/// `RwLock::new`: a lock that holds `value`.
#[verifier::external_body]
pub(crate) fn new_lock<T>(value: T) -> (lock: RwLock<RawRwLock, T>) {
    RwLock::new(value)
}

/// `RwLock::read`: waits until no writer holds the lock, then gives shared
/// access. It does not return while a writer keeps the lock, be it the calling
/// thread itself.
#[verifier::external_body]
pub(crate) fn lock_read<'a, T: ?Sized>(lock: &'a RwLock<RawRwLock, T>) -> (guard: ReadGuard<'a, T>) {
    ReadGuard { guard: lock.read() }
}

/// `RwLock::write`: waits until nobody else holds the lock, then gives
/// exclusive access. It does not return while anybody keeps the lock, be it
/// the calling thread itself.
#[verifier::external_body]
pub(crate) fn lock_write<'a, T: ?Sized>(lock: &'a RwLock<RawRwLock, T>) -> (guard: WriteGuard<
    'a,
    T,
>) {
    WriteGuard { guard: lock.write() }
}

/// The read guard's `Deref`: the value that the lock holds.
#[verifier::external_body]
pub(crate) fn read_ref<'a, 'b, T: ?Sized>(guard: &'a ReadGuard<'b, T>) -> (value: &'a T) {
    &*guard.guard
}

/// The write guard's `DerefMut`: the value that the lock holds, for writing.
#[verifier::external_body]
pub(crate) fn write_mut<'a, 'b, T: ?Sized>(guard: &'a mut WriteGuard<'b, T>) -> (value: &'a mut T) {
    &mut *guard.guard
}

/// The mapped read guard's `Deref`: the part that the guard stands for.
#[verifier::external_body]
pub(crate) fn mapped_ref<'a, 'b, T: ?Sized>(guard: &'a MappedReadGuard<'b, T>) -> (value: &'a T) {
    &*guard.guard
}

/// The mapped write guard's `Deref`: the part that the guard stands for.
#[verifier::external_body]
pub(crate) fn mapped_write_ref<'a, 'b, T: ?Sized>(guard: &'a MappedWriteGuard<'b, T>) -> (value:
    &'a T) {
    &*guard.guard
}

/// The mapped write guard's `DerefMut`: the part that the guard stands for,
/// for writing.
#[verifier::external_body]
pub(crate) fn mapped_mut<'a, 'b, T: ?Sized>(guard: &'a mut MappedWriteGuard<'b, T>) -> (value:
    &'a mut T) {
    &mut *guard.guard
}

impl<'b, T: ?Sized> std::ops::Deref for MappedReadGuard<'b, T> {
    type Target = T;

    /// The value that the guard gives access to.
    fn deref(&self) -> &T {
        mapped_ref(self)
    }
}

impl<'b, T: ?Sized> std::ops::Deref for MappedWriteGuard<'b, T> {
    type Target = T;

    /// The value that the guard gives access to.
    fn deref(&self) -> &T {
        mapped_write_ref(self)
    }
}

impl<'b, T: ?Sized> std::ops::DerefMut for MappedWriteGuard<'b, T> {
    /// The value that the guard gives access to, for writing.
    fn deref_mut(&mut self) -> &mut T {
        mapped_mut(self)
    }
}

} // verus!
