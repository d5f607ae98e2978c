//! What an initializer runs under, and the end of it.

use vstd::prelude::*;

use super::{Held, StoreOnDrop};

verus! {

/// What an initializer is given: the guard of the mutex that its thread has, and the guard that resets the
/// state when the thread unwinds. Both live as long as the initializer runs.
pub struct Running<'a> {
    held: &'a Held<'a>,
    reset: &'a StoreOnDrop<'a>,
}

impl<'a> Running<'a> {
    /// The guard of the mutex.
    pub closed spec fn held(self) -> Held<'a> {
        *self.held
    }

    /// The guard that resets the state.
    pub closed spec fn reset(self) -> StoreOnDrop<'a> {
        *self.reset
    }
}

/// Runs an initializer under two guards, and gives the second one back when it has returned. If it unwinds,
/// that guard is dropped.
pub(crate) fn run<'a, F, E>(held: &Held<'_>, reset: StoreOnDrop<'a>, init: F) -> (ran: (
    Result<(), E>,
    StoreOnDrop<'a>,
)) where F: FnOnce(&Running<'_>) -> Result<(), E>
    requires
        forall|running: Running<'_>|
            #![trigger running.held(), running.reset()]
            running.held() == *held && running.reset() == reset ==> init.requires((&running,)),
    ensures
        ran.1 == reset,
        exists|running: Running<'_>|
            running.held() == *held && running.reset() == reset && #[trigger] init.ensures(
                (&running,),
                ran.0,
            ),
{
    let running = Running { held, reset: &reset };
    assert(running.held() == *held && running.reset() == reset);
    let outcome = init(&running);
    let ran = (outcome, reset);
    assert(init.ensures((&running,), ran.0));
    ran
}

/// A guard of a mutex that was given back.
pub struct Unlocked<'a> {
    guard: Ghost<Held<'a>>,
}

impl<'a> Unlocked<'a> {
    /// The guard.
    pub closed spec fn guard(self) -> Held<'a> {
        self.guard@
    }
}

/// Gives back what a guard keeps. Nothing else makes an [`Unlocked`].
pub(crate) fn give_back<'a>(held: Held<'a>) -> (unlocked: Unlocked<'a>)
    ensures
        unlocked.guard() == held,
{
    Unlocked { guard: Ghost(held) }
}

} // verus!
