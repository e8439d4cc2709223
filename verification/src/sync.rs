//! Locks, as far as this library needs them.

use vstd::prelude::*;

verus! {

/// `antidote::Mutex`, a lock around a value. Nothing inside it is visible to
/// the verifier.
#[verifier::external_type_specification]
#[verifier::external_body]
#[verifier::reject_recursive_types(T)]
pub struct ExMutex<T: ?Sized>(antidote::Mutex<T>);

/// `antidote::MutexGuard`, the proof that a lock is held. Nothing inside it
/// is visible to the verifier.
#[verifier::external_type_specification]
#[verifier::external_body]
#[verifier::reject_recursive_types(T)]
pub struct ExMutexGuard<'a, T: ?Sized + 'a>(antidote::MutexGuard<'a, T>);

/// Wraps `value` in a lock with `antidote::Mutex::new`.
///
/// Not verified. Nothing is claimed of the lock.
#[verifier::external_body]
pub(crate) fn mutex_new<T>(value: T) -> antidote::Mutex<T> {
    antidote::Mutex::new(value)
}

/// Takes the lock with `antidote::Mutex::lock`, waiting until it is free.
/// The lock is given back when the guard goes out of scope. Whoever holds
/// the lock must not ask for it again before giving it back: that call
/// would not return.
///
/// Not verified. Nothing is claimed of the guarded value: other holders of
/// the lock may have changed it.
#[verifier::external_body]
pub(crate) fn lock<'a, T>(mutex: &'a antidote::Mutex<T>) -> antidote::MutexGuard<'a, T> {
    mutex.lock()
}

/// The guarded value, through `DerefMut` of `antidote::MutexGuard`.
///
/// Not verified. Nothing is claimed of the value.
#[verifier::external_body]
pub(crate) fn guarded<'a, 'b, T>(guard: &'b mut antidote::MutexGuard<'a, T>) -> &'b mut T {
    &mut **guard
}

} // verus!
