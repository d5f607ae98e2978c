//! A mutex that protects no data, and what its guards promise when threads share it.

use vstd::prelude::*;

use super::raw::{given_back, lock_states, raw_lock, raw_mutex, raw_unlock, Taken};

verus! {

/// A mutex that protects no data. Its field is public so that it can be made in a constant.
pub struct Mutex {
    pub inner: parking_lot::RawMutex,
}

impl Mutex {
    /// An unlocked mutex.
    pub fn new() -> (mutex: Mutex)
        ensures
            lock_states(mutex.inner).contains(false),
    {
        Mutex { inner: raw_mutex() }
    }

    /// Waits until this thread has the mutex, and keeps it until the guard is dropped. The thread must
    /// not have the mutex already.
    pub fn lock(&self) -> (guard: MutexGuard<'_>)
        ensures
            guard.mutex() == self,
            guard.holds(),
            lock_states(self.inner).contains(state_after(Step::Lock)),
    {
        let taken = raw_lock(&self.inner);
        MutexGuard { mutex: self, taken: Some(taken) }
    }
}

/// Keeps a [`Mutex`] locked, and unlocks it when dropped.
pub struct MutexGuard<'a> {
    mutex: &'a Mutex,
    taken: Option<Taken<'a>>,
}

impl<'a> MutexGuard<'a> {
    /// The mutex that is locked.
    pub closed spec fn mutex(&self) -> &'a Mutex {
        self.mutex
    }

    /// Whether the guard has the mutex: it does until it is dropped.
    pub closed spec fn holds(&self) -> bool {
        self.taken is Some
    }

    #[verifier::type_invariant]
    spec fn wf(self) -> bool {
        self.taken matches Some(taken) ==> taken.mutex() == &self.mutex.inner
    }
}

impl<'a> Drop for MutexGuard<'a> {
    fn drop(&mut self)
        ensures
            old(self).holds() ==> given_back(old(self).mutex().inner),
            !final(self).holds(),
        opens_invariants none
        no_unwind
    {
        proof {
            use_type_invariant(&*self);
        }
        let mut taken: Option<Taken<'a>> = None;
        core::mem::swap(&mut taken, &mut self.taken);
        if let Some(taken) = taken {
            let _unlocked = raw_unlock(taken);
        }
    }
}

/// A mutex and the threads that use it.
pub struct System {
    /// Whether the mutex is locked.
    pub locked: bool,
    /// The threads that have a guard.
    pub guards: Set<int>,
}

/// What a thread does with a mutex.
pub enum Step {
    /// It locks the mutex and gets a guard.
    Lock,
    /// It drops its guard.
    Drop,
}

/// Whether the mutex is locked after a step: [`Mutex::lock`] leaves it so, dropping the guard does not.
pub open spec fn state_after(step: Step) -> bool {
    step is Lock
}

/// The start: an unlocked mutex without guards, as [`Mutex::new`] makes it.
pub open spec fn initial(s: System) -> bool {
    !s.locked && s.guards == Set::<int>::empty()
}

/// Whether thread `t` can make this step: a locked mutex has to be waited for, and only a guard can
/// be dropped.
pub open spec fn enabled(s: System, t: int, step: Step) -> bool {
    match step {
        Step::Lock => !s.locked,
        Step::Drop => s.guards.contains(t),
    }
}

/// The system after thread `t` has made a step.
pub open spec fn after(s: System, t: int, step: Step) -> System {
    System {
        locked: state_after(step),
        guards: match step {
            Step::Lock => s.guards.insert(t),
            Step::Drop => s.guards.remove(t),
        },
    }
}

/// A run: the states of a system from the start on, and which thread made which step.
pub open spec fn is_run(states: Seq<System>, moves: Seq<(int, Step)>) -> bool {
    &&& states.len() == moves.len() + 1
    &&& initial(states[0])
    &&& forall|i: int|
        0 <= i < moves.len() ==> enabled(states[i], (#[trigger] moves[i]).0, moves[i].1) && states[i
            + 1] == after(states[i], moves[i].0, moves[i].1)
}

/// At most one thread has a guard at a time. The mutex is locked exactly as long as some thread does,
/// so that a thread that waits for it can go on as soon as the guard is dropped.
pub proof fn law_one_guard(states: Seq<System>, moves: Seq<(int, Step)>, i: int)
    requires
        is_run(states, moves),
        0 <= i < states.len(),
    ensures
        forall|t: int, u: int|
            #![trigger states[i].guards.contains(t), states[i].guards.contains(u)]
            states[i].guards.contains(t) && states[i].guards.contains(u) ==> t == u,
        states[i].locked <==> exists|t: int| states[i].guards.contains(t),
        forall|t: int| #[trigger]
            enabled(states[i], t, Step::Lock) <==> states[i].guards == Set::<int>::empty(),
    decreases i,
{
    let s = states[i];
    if i > 0 {
        law_one_guard(states, moves, i - 1);
        let (t, step) = moves[i - 1];
        let before = states[i - 1];
        match step {
            Step::Lock => {
                assert(forall|u: int| !before.guards.contains(u));
                assert(s.guards.contains(t));
            },
            Step::Drop => {
                assert(before.guards.contains(t));
                assert(forall|u: int| !s.guards.contains(u));
            },
        }
    }
    if !s.locked {
        assert(s.guards =~= Set::<int>::empty());
    }
}

} // verus!
