//! Support for state shared between the engine and the handles it gives
//! out (promises, interrupters): a reference-counted mutex cell, accessed
//! through a small set of trusted operations.
//!
//! Contents of such a cell can be changed from other threads at any time,
//! so nothing is assumed about what a lock returns: every function that
//! reads a cell states what holds of every possible outcome.

use vstd::prelude::*;

use std::sync::Arc;
use std::sync::Mutex;

verus! {

#[verifier::external_type_specification]
#[verifier::external_body]
#[verifier::reject_recursive_types(T)]
pub struct ExMutex<T: ?Sized>(Mutex<T>);

pub assume_specification<T>[ Mutex::<T>::new ](t: T) -> Mutex<T>;

#[verifier::external_type_specification]
#[verifier::external_body]
pub struct ExCondvar(std::sync::Condvar);

pub assume_specification[ std::sync::Condvar::new ]() -> std::sync::Condvar;

/// Relies on `Condvar::notify_all`: wakes every thread blocked on the
/// condition variable.
#[verifier::external_body]
pub(crate) fn notify_all(cond: &Arc<std::sync::Condvar>) {
    cond.notify_all();
}

/// Relies on `Arc::clone`: the returned handle refers to the same
/// underlying value as the argument.
#[verifier::external_body]
pub(crate) fn share<T>(v: &Arc<T>) -> (r: Arc<T>)
    ensures
        r == *v,
{
    Arc::clone(v)
}

/// Relies on `Mutex::lock`: swaps the cell's contents for `replacement`
/// and returns the previous contents, together with whether the mutex was
/// poisoned. A poisoned mutex means a past holder of the lock panicked;
/// the contents are swapped out all the same so the caller can decide
/// what poisoning means for it. Nothing is assumed about the returned
/// contents: another thread may have changed them at any time.
#[verifier::external_body]
pub(crate) fn lock_swap<T>(cell: &Arc<Mutex<T>>, replacement: T) -> (r: (T, bool)) {
    match cell.lock() {
        Ok(mut guard) => {
            let mut value = replacement;
            core::mem::swap(&mut *guard, &mut value);
            (value, false)
        }
        Err(poisoned) => {
            let mut guard = poisoned.into_inner();
            let mut value = replacement;
            core::mem::swap(&mut *guard, &mut value);
            (value, true)
        }
    }
}

} // verus!
