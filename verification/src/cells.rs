//! The cells of the standard library that the library keeps its memories
//! and its late definitions in. What a cell holds changes behind a shared
//! reference, so the contracts here say nothing of it: the functions that
//! use a cell state what holds whatever came out of it.
//!
//! A cell is reached by claiming it. A claim that cannot be had at once is
//! refused, and the caller goes on without the cell: no call here waits,
//! and none fails where a cell is in use.
use vstd::prelude::*;
use std::rc::Rc;

verus! {

/// `std::cell::RefCell`, a cell whose content can be changed through a
/// shared reference.
#[verifier::external_type_specification]
#[verifier::external_body]
#[verifier::reject_recursive_types(T)]
pub struct ExRefCell<T: ?Sized>(std::cell::RefCell<T>);

/// `std::cell::RefMut`, the claim on what a `RefCell` holds.
#[verifier::external_type_specification]
#[verifier::external_body]
#[verifier::reject_recursive_types(T)]
pub struct ExRefMut<'b, T: ?Sized + 'b>(std::cell::RefMut<'b, T>);

/// `RefCell::new`: a cell that holds `value`.
#[verifier::external_body]
pub(crate) fn cell_new<T>(value: T) -> std::cell::RefCell<T> {
    std::cell::RefCell::new(value)
}

/// `RefCell::try_borrow_mut`: the claim on what the cell holds, or none
/// where the cell is claimed already. Whether it is depends on who else
/// holds the cell, so nothing is said of it.
#[verifier::external_body]
pub(crate) fn cell_claim<'a, T>(cell: &'a std::cell::RefCell<T>) -> Option<
    std::cell::RefMut<'a, T>,
> {
    match cell.try_borrow_mut() {
        Ok(claim) => Some(claim),
        Err(_) => None,
    }
}

/// `RefMut::deref_mut`: what the claimed cell holds, to read and to change.
/// What that is depends on what was put there before, so nothing is said of
/// it.
#[verifier::external_body]
pub(crate) fn cell_open<'g, 'a, T>(claim: &'g mut std::cell::RefMut<'a, T>) -> &'g mut T {
    std::ops::DerefMut::deref_mut(claim)
}

/// `std::sync::RwLock`, a lock whose content can be changed through a
/// shared reference, from any thread.
#[verifier::external_type_specification]
#[verifier::external_body]
#[verifier::reject_recursive_types(T)]
pub struct ExRwLock<T: ?Sized>(std::sync::RwLock<T>);

/// `std::sync::RwLockWriteGuard`, the claim on what a `RwLock` guards.
#[verifier::external_type_specification]
#[verifier::external_body]
#[verifier::reject_recursive_types(T)]
pub struct ExRwLockWriteGuard<'a, T: ?Sized + 'a>(std::sync::RwLockWriteGuard<'a, T>);

/// `RwLock::new`: a lock that holds `value`.
#[verifier::external_body]
pub(crate) fn lock_new<T>(value: T) -> std::sync::RwLock<T> {
    std::sync::RwLock::new(value)
}

/// `RwLock::try_write`: the claim on what the lock guards, or none where
/// the lock is held, by this thread or another, or is poisoned. Whether it
/// is depends on who else holds the lock, so nothing is said of it.
#[verifier::external_body]
pub(crate) fn lock_claim<'a, T>(lock: &'a std::sync::RwLock<T>) -> Option<
    std::sync::RwLockWriteGuard<'a, T>,
> {
    match lock.try_write() {
        Ok(claim) => Some(claim),
        Err(_) => None,
    }
}

/// `RwLockWriteGuard::deref_mut`: what the claimed lock guards, to read and
/// to change. What that is depends on what was put there before, so nothing
/// is said of it.
#[verifier::external_body]
pub(crate) fn lock_open<'g, 'a, T>(
    claim: &'g mut std::sync::RwLockWriteGuard<'a, T>,
) -> &'g mut T {
    std::ops::DerefMut::deref_mut(claim)
}

/// `std::cell::OnceCell`, a cell that can be filled once through a shared
/// reference.
#[verifier::external_type_specification]
#[verifier::external_body]
#[verifier::reject_recursive_types(T)]
pub struct ExOnceCell<T>(std::cell::OnceCell<T>);

/// `OnceCell::new`: an empty cell.
#[verifier::external_body]
pub(crate) fn once_new<T>() -> std::cell::OnceCell<T> {
    std::cell::OnceCell::new()
}

/// `OnceCell::set`: fills the cell with `value` if it is empty, and hands
/// `value` back if it is not.
#[verifier::external_body]
pub(crate) fn once_set<T>(cell: &std::cell::OnceCell<T>, value: T) -> (res: Result<(), T>)
    ensures
        res is Err ==> res->Err_0 == value,
{
    cell.set(value)
}

/// `OnceCell::get`: what the cell was filled with, if it was filled.
#[verifier::external_body]
pub(crate) fn once_get<T>(cell: &std::cell::OnceCell<T>) -> Option<&T> {
    cell.get()
}

/// `Rc::clone`: one more reference to the same value.
#[verifier::external_body]
pub(crate) fn rc_share<T>(shared: &Rc<T>) -> (copy: Rc<T>)
    ensures
        copy == *shared,
{
    Rc::clone(shared)
}

} // verus!
