//! `parking_lot`'s mutex without data, and the right to unlock it.
//!
//! Only [`raw_lock`] makes a [`Taken`], and [`raw_unlock`] uses it up: as long as there is one, the mutex
//! is locked.

use parking_lot::lock_api::RawMutex as _;
use vstd::prelude::*;

verus! {

/// `parking_lot`'s mutex without data or guard.
#[verifier::external_type_specification]
#[verifier::external_body]
pub struct ExRawMutex(parking_lot::RawMutex);

/// The states that a mutex is in over the course of its life: `true` for locked, `false` for unlocked. The
/// set belongs to the mutex and does not change with time.
pub uninterp spec fn lock_states(mutex: parking_lot::RawMutex) -> Set<bool>;

/// Whether a mutex is given back, by any thread, at some time of its life.
pub uninterp spec fn given_back(mutex: parking_lot::RawMutex) -> bool;

/// A mutex that was locked and not yet given back.
pub struct Taken<'a> {
    mutex: &'a parking_lot::RawMutex,
}

impl<'a> Taken<'a> {
    /// The mutex that is locked.
    pub closed spec fn mutex(self) -> &'a parking_lot::RawMutex {
        self.mutex
    }
}

/// Calls `RawMutex::INIT` of `parking_lot`: a mutex that is unlocked at first.
#[verifier::external_body]
pub(crate) fn raw_mutex() -> (mutex: parking_lot::RawMutex)
    ensures
        lock_states(mutex).contains(false),
{
    parking_lot::RawMutex::INIT
}

/// Calls `RawMutex::lock` of `parking_lot`, which returns when this thread has locked the mutex. What it
/// returns stands for that: it is the only right to unlock the mutex that comes of this call. A thread
/// that has the mutex already would wait for itself. That no other thread has the mutex is left unsaid: a
/// clause here speaks of one call.
#[verifier::external_body]
pub(crate) fn raw_lock(mutex: &parking_lot::RawMutex) -> (taken: Taken<'_>)
    ensures
        taken.mutex() == mutex,
        lock_states(*taken.mutex()).contains(true),
{
    mutex.lock();
    Taken { mutex }
}

/// Calls `RawMutex::unlock` of `parking_lot`, which gives the mutex back and does not unwind; the `true`
/// that it returns stands for that. It may be called only once for each lock, by the thread that has the
/// mutex.
#[verifier::external_body]
pub(crate) fn raw_unlock(taken: Taken<'_>) -> (unlocked: bool)
    ensures
        unlocked && given_back(*taken.mutex()) == unlocked,
    opens_invariants none
    no_unwind
{
    taken.mutex.unlock();
    true
}

} // verus!
