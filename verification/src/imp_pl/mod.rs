//! The latch of a once-only cell whose waiting threads block on a mutex of `parking_lot`.
//!
//! The latch decides which call runs its initializer; the initializer itself fills the slot that the
//! latch guards.

pub mod mutex;
pub mod protocol;
pub mod raw;
pub mod scope;

use std::mem::ManuallyDrop;
use std::sync::atomic::AtomicUsize;
use vstd::prelude::*;

use self::scope::{give_back, run, Running, Unlocked};
use crate::operation::{compare_and_swap, load};
use crate::order::Order;
use crate::word::{
    exchanged, first_value, loads, new_word, orders_store, store, stores, values, Access, Operation, Word,
};

verus! {

/// The cell is empty and nobody is filling it.
pub const EMPTY: usize = 0x2;

/// One thread is running its initializer.
pub const RUNNING: usize = 0x1;

/// The cell is filled, for good.
pub const COMPLETE: usize = 0x0;

/// `parking_lot`'s mutex that the thread that has it can lock again.
#[verifier::external_type_specification]
#[verifier::external_body]
#[verifier::reject_recursive_types(R)]
#[verifier::reject_recursive_types(G)]
#[verifier::reject_recursive_types(T)]
pub struct ExReentrantMutex<R, G, T: ?Sized>(parking_lot::lock_api::ReentrantMutex<R, G, T>);

/// How `parking_lot` tells threads apart.
#[verifier::external_type_specification]
#[verifier::external_body]
pub struct ExRawThreadId(parking_lot::RawThreadId);

/// Whether a mutex is locked, by any thread, at some time of its life.
pub uninterp spec fn was_locked(mutex: parking_lot::ReentrantMutex<()>) -> bool;

/// Calls `parking_lot::const_reentrant_mutex`: an unlocked mutex. What becomes of it later is open, so
/// that no clause speaks of it.
#[verifier::external_body]
fn new_mutex() -> parking_lot::ReentrantMutex<()> {
    parking_lot::const_reentrant_mutex(())
}

/// `parking_lot`'s guard of a mutex that this thread has: as long as there is one, no other thread has the
/// mutex.
#[verifier::external_body]
pub struct Held<'a> {
    _guard: parking_lot::ReentrantMutexGuard<'a, ()>,
}

/// The mutex that a guard keeps.
pub uninterp spec fn held_mutex(held: Held<'_>) -> parking_lot::ReentrantMutex<()>;

/// Calls `ReentrantMutex::lock` of `parking_lot`, which returns when this thread has the mutex, at once
/// if it has it already. The guard keeps this mutex, which has been locked by now; dropping the guard
/// gives back what this call took. That no other thread has a guard of the mutex is left unsaid: a clause
/// here speaks of one call, and [`protocol`] takes it as a rule of the system. The call panics only when
/// a thread holds as many guards as fit a `usize`; a call on a cell holds one, and a call from within an
/// initializer one more.
#[verifier::external_body]
fn lock_mutex(mutex: &parking_lot::ReentrantMutex<()>) -> (held: Held<'_>)
    ensures
        held_mutex(held) == *mutex,
        was_locked(held_mutex(held)),
{
    Held { _guard: mutex.lock() }
}

/// Stores a value into an atomic when dropped, also when the thread unwinds, unless cancelled.
pub struct StoreOnDrop<'a> {
    access: Access<'a>,
    value: usize,
    order: Order,
}

/// A guard that stores `value` into `atomic` when dropped.
pub fn store_on_drop<'a, W: Word<'a>>(atomic: W, value: usize, order: Order) -> (guard: StoreOnDrop<
    'a,
>)
    requires
        atomic.allows(Operation::Store { new: value, order }),
        orders_store(order),
    ensures
        guard.atomic() == atomic.target(),
        guard.value() == value,
        guard.order() == order,
{
    StoreOnDrop { access: atomic.access(Operation::Store { new: value, order }), value, order }
}

impl<'a> StoreOnDrop<'a> {
    /// The atomic that the guard stores into.
    pub closed spec fn atomic(self) -> AtomicUsize {
        self.access.target()
    }

    /// What the guard stores when dropped.
    pub closed spec fn value(self) -> usize {
        self.value
    }

    /// The memory order of the store.
    pub closed spec fn order(self) -> Order {
        self.order
    }

    #[verifier::type_invariant]
    spec fn wf(self) -> bool {
        &&& orders_store(self.order)
        &&& self.access.operation() == (Operation::Store { new: self.value, order: self.order })
    }

    /// Lets the atomic be. The guard is used up and never dropped, so that its store does not happen.
    pub fn cancel(self) -> (kept: ManuallyDrop<StoreOnDrop<'a>>)
        ensures
            kept@ == self,
    {
        ManuallyDrop::new(self)
    }
}

impl<'a> Drop for StoreOnDrop<'a> {
    fn drop(&mut self)
        ensures
            values(old(self).atomic()).contains(old(self).value()),
            stores(old(self).atomic()).contains((old(self).value(), old(self).order())),
        opens_invariants none
        no_unwind
    {
        proof {
            use_type_invariant(&*self);
        }
        store(&self.access, self.value, self.order);
    }
}

/// Why a call did not leave a filled cell behind.
#[derive(Debug, PartialEq, Eq)]
pub enum InitError<E> {
    /// The initializer failed.
    Failed(E),
    /// The call came from within the initializer that is running.
    Reentrant,
}

/// What a thread that has the mutex learns from the state it found there.
#[derive(Clone, Copy, Debug, PartialEq, Eq, Structural)]
pub enum Claim {
    /// The state was `EMPTY` and is `RUNNING` now: this call runs its initializer.
    Won,
    /// Another thread has filled the cell meanwhile.
    Filled,
    /// An initializer is running, although this thread has the mutex: it must be its own.
    Reentrant,
}

/// What `state`, found with the mutex held, means.
pub open spec fn claim(state: usize) -> Claim {
    if state == EMPTY {
        Claim::Won
    } else if state == COMPLETE {
        Claim::Filled
    } else {
        Claim::Reentrant
    }
}

/// The state of a cell whose initializer has ended.
pub open spec fn settled_state(success: bool) -> usize {
    if success {
        COMPLETE
    } else {
        EMPTY
    }
}

/// What the state becomes when an initializer has ended.
pub fn settled(success: bool) -> (state: usize)
    ensures
        state == settled_state(success),
{
    if success {
        COMPLETE
    } else {
        EMPTY
    }
}

/// Whether `state` is that of a filled cell.
pub open spec fn is_filled(state: usize) -> bool {
    state == COMPLETE
}

/// Whether `state` is that of a filled cell.
pub fn is_complete(state: usize) -> (complete: bool)
    ensures
        complete == is_filled(state),
{
    state == COMPLETE
}

/// How a call ends.
#[derive(Clone, Copy, Debug, PartialEq, Eq, Structural)]
pub enum Outcome {
    /// The cell is filled.
    Ready,
    /// The call's own initializer failed.
    Failed,
    /// The call came from within the initializer that is running.
    Reentrant,
}

/// How far a call has come, by the operation that it performs next.
#[derive(Clone, Copy, Debug, PartialEq, Eq, Structural)]
pub enum Phase {
    /// Read the state without the mutex.
    Probe,
    /// Lock the mutex.
    Lock,
    /// Replace `EMPTY` by `RUNNING`.
    Swap,
    /// Run the initializer.
    Run,
    /// Store the state that follows from how the initializer ended.
    Settle { success: bool },
    /// Unlock the mutex.
    Unlock { outcome: Outcome },
    /// The call is over.
    Done { outcome: Outcome },
}

/// What came of an operation.
#[derive(Clone, Copy, Debug, PartialEq, Eq, Structural)]
pub enum Event {
    /// The state that was read or exchanged.
    State(usize),
    /// The initializer has ended, with success or not.
    Ran(bool),
    /// Anything else is done.
    Finished,
}

/// An operation.
#[derive(Clone, Copy, Debug, PartialEq, Eq, Structural)]
pub enum Action {
    /// Read the state.
    Load(Order),
    /// Lock the mutex.
    Lock,
    /// Exchange the state for `new` if it is `current`.
    CompareAndSwap { current: usize, new: usize, order: Order },
    /// Run the initializer.
    Run,
    /// Set the state.
    Store { new: usize, order: Order },
    /// Unlock the mutex.
    Unlock,
    /// Return.
    Return(Outcome),
}

/// Whether `event` can come of the operation of a call in `phase`.
pub open spec fn answers(phase: Phase, event: Event) -> bool {
    match phase {
        Phase::Probe | Phase::Swap => event is State,
        Phase::Run => event is Ran,
        Phase::Lock | Phase::Settle { .. } | Phase::Unlock { .. } => event is Finished,
        Phase::Done { .. } => false,
    }
}

/// The phase after `phase` when `event` came of its operation.
pub open spec fn following(phase: Phase, event: Event) -> Phase {
    match (phase, event) {
        (Phase::Probe, Event::State(state)) => if is_filled(state) {
            Phase::Done { outcome: Outcome::Ready }
        } else {
            Phase::Lock
        },
        (Phase::Lock, _) => Phase::Swap,
        (Phase::Swap, Event::State(state)) => match claim(state) {
            Claim::Won => Phase::Run,
            Claim::Filled => Phase::Unlock { outcome: Outcome::Ready },
            Claim::Reentrant => Phase::Unlock { outcome: Outcome::Reentrant },
        },
        (Phase::Run, Event::Ran(success)) => Phase::Settle { success },
        (Phase::Settle { success }, _) => Phase::Unlock {
            outcome: if success {
                Outcome::Ready
            } else {
                Outcome::Failed
            },
        },
        (Phase::Unlock { outcome }, _) => Phase::Done { outcome },
        _ => phase,
    }
}

/// The operation of a call in `phase`.
pub open spec fn operation(phase: Phase) -> Action {
    match phase {
        Phase::Probe => Action::Load(Order::Acquire),
        Phase::Lock => Action::Lock,
        Phase::Swap => Action::CompareAndSwap {
            current: EMPTY,
            new: RUNNING,
            order: Order::Relaxed,
        },
        Phase::Run => Action::Run,
        Phase::Settle { success } => Action::Store {
            new: settled_state(success),
            order: if success {
                Order::Release
            } else {
                Order::Relaxed
            },
        },
        Phase::Unlock { .. } => Action::Unlock,
        Phase::Done { outcome } => Action::Return(outcome),
    }
}

/// One call of [`OnceCell::initialize`], operation by operation.
#[derive(Debug)]
pub struct Attempt {
    phase: Phase,
}

impl Attempt {
    /// How far the call has come.
    pub closed spec fn phase(self) -> Phase {
        self.phase
    }

    /// A call that has not done anything yet.
    pub fn new() -> (call: Attempt)
        ensures
            call.phase() == Phase::Probe,
    {
        Attempt { phase: Phase::Probe }
    }

    /// The operation that the call performs next.
    pub fn action(&self) -> (action: Action)
        ensures
            action == operation(self.phase()),
    {
        match self.phase {
            Phase::Probe => Action::Load(Order::Acquire),
            Phase::Lock => Action::Lock,
            Phase::Swap => Action::CompareAndSwap {
                current: EMPTY,
                new: RUNNING,
                order: Order::Relaxed,
            },
            Phase::Run => Action::Run,
            Phase::Settle { success } => Action::Store {
                new: settled(success),
                order: if success {
                    Order::Release
                } else {
                    Order::Relaxed
                },
            },
            Phase::Unlock { .. } => Action::Unlock,
            Phase::Done { outcome } => Action::Return(outcome),
        }
    }

    /// Goes on with the call after its operation, of which `event` came.
    pub fn advance(&mut self, event: Event)
        requires
            answers(old(self).phase(), event),
        ensures
            final(self).phase() == following(old(self).phase(), event),
    {
        self.phase = match (self.phase, event) {
            (Phase::Probe, Event::State(state)) => if is_complete(state) {
                Phase::Done { outcome: Outcome::Ready }
            } else {
                Phase::Lock
            },
            (Phase::Lock, _) => Phase::Swap,
            (Phase::Swap, Event::State(state)) => if state == EMPTY {
                Phase::Run
            } else if is_complete(state) {
                Phase::Unlock { outcome: Outcome::Ready }
            } else {
                Phase::Unlock { outcome: Outcome::Reentrant }
            },
            (Phase::Run, Event::Ran(success)) => Phase::Settle { success },
            (Phase::Settle { success }, _) => Phase::Unlock {
                outcome: if success {
                    Outcome::Ready
                } else {
                    Outcome::Failed
                },
            },
            (Phase::Unlock { outcome }, _) => Phase::Done { outcome },
            (phase, _) => phase,
        };
    }
}

/// How a call ends that returns `result`.
pub open spec fn outcome_of<E>(result: Result<(), InitError<E>>) -> Outcome {
    match result {
        Ok(()) => Outcome::Ready,
        Err(InitError::Failed(_)) => Outcome::Failed,
        Err(InitError::Reentrant) => Outcome::Reentrant,
    }
}

/// The operation on the state that an action is, if it is one.
pub open spec fn on_state(action: Action) -> Option<Operation> {
    match action {
        Action::Load(order) => Some(Operation::Load(order)),
        Action::CompareAndSwap { current, new, order } => Some(
            Operation::Exchange { current, new, order },
        ),
        Action::Store { new, order } => Some(Operation::Store { new, order }),
        _ => None,
    }
}

/// Whether an initializer that is given `running` runs for `cell`: the thread has the mutex of the cell, and
/// the state of the cell is reset if the initializer unwinds.
pub open spec fn runs_for<S>(running: Running<'_>, cell: &OnceCell<S>) -> bool where
    for <'b>&'b S: Word<'b>,
 {
    &&& held_mutex(running.held()) == cell.mutex
    &&& running.reset().atomic() == cell.word()
    &&& running.reset().value() == EMPTY
    &&& running.reset().order() == Order::Relaxed
}

/// How a call ends that has the mutex of `cell`, kept by `held`, and has found `state`. If that is `EMPTY`, it
/// runs `init`, which is given the guards, and stores the state that follows from how `init` ends.
pub open spec fn resumed<S, F, E>(
    cell: &OnceCell<S>,
    held: Held<'_>,
    state: usize,
    init: F,
    result: Result<(), InitError<E>>,
) -> bool where for <'b>&'b S: Word<'b>, F: FnOnce(&Running<'_>) -> Result<(), E> {
    match claim(state) {
        Claim::Won => exists|running: Running<'_>|
            runs_for(running, cell) && running.held() == held && #[trigger] ended(
                cell,
                running,
                init,
                result,
            ),
        Claim::Filled => result == Ok::<(), InitError<E>>(()),
        Claim::Reentrant => result == Err::<(), InitError<E>>(InitError::Reentrant),
    }
}

/// How a call ends that has run `init`, which was given `running`.
pub open spec fn ended<S, F, E>(
    cell: &OnceCell<S>,
    running: Running<'_>,
    init: F,
    result: Result<(), InitError<E>>,
) -> bool where for <'b>&'b S: Word<'b>, F: FnOnce(&Running<'_>) -> Result<(), E> {
    match result {
        Ok(()) => init.ensures((&running,), Ok(())) && stores(cell.word()).contains(
            (COMPLETE, Order::Release),
        ),
        Err(InitError::Failed(error)) => init.ensures((&running,), Err(error)) && stores(
            cell.word(),
        ).contains((EMPTY, Order::Relaxed)),
        Err(InitError::Reentrant) => false,
    }
}

/// The latch of a cell. Its fields are public so that it can be made in a constant: unlocked, and in the
/// state `EMPTY`.
pub struct OnceCell<S = AtomicUsize> {
    pub mutex: parking_lot::ReentrantMutex<()>,
    pub state: S,
}

impl OnceCell<AtomicUsize> {
    /// The latch of an empty cell.
    pub fn new() -> (cell: OnceCell)
        ensures
            first_value(cell.state) == EMPTY,
            values(cell.state).contains(EMPTY),
    {
        OnceCell { mutex: new_mutex(), state: new_word(EMPTY) }
    }
}

impl<S> OnceCell<S> where for <'b>&'b S: Word<'b> {
    /// The word that holds the state.
    pub open spec fn word(&self) -> AtomicUsize {
        (&self.state).target()
    }

    /// Whether the cell is filled. What the initializer wrote is visible to this thread then.
    pub fn is_initialized(&self) -> (filled: bool)
        requires
            (&self.state).allows(Operation::Load(Order::Acquire)),
        ensures
            exists|state: usize|
                values(self.word()).contains(state) && #[trigger] loads(self.word()).contains(
                    (Order::Acquire, state),
                ) && filled == is_filled(state),
    {
        let state: usize = load(&self.state, Order::Acquire);
        assert(loads(self.word()).contains((Order::Acquire, state)));
        is_complete(state)
    }

    /// Waits until this thread has the mutex of the cell, and keeps it until the guard is dropped.
    pub fn lock(&self) -> (held: Held<'_>)
        ensures
            held_mutex(held) == self.mutex,
            was_locked(self.mutex),
    {
        lock_mutex(&self.mutex)
    }

    /// Performs the operation of a call that reads or sets the state, and no other. To claim the cell and to
    /// settle it the call must have the mutex; `held` keeps it.
    pub fn perform(&self, held: Option<&Held<'_>>, call: &Attempt) -> (event: Event)
        requires
            call.phase() is Probe || call.phase() is Swap || call.phase() is Settle,
            call.phase() !is Probe ==> held is Some && held_mutex(*held->0) == self.mutex,
            on_state(operation(call.phase())) matches Some(operation) ==> (&self.state).allows(operation),
        ensures
            answers(call.phase(), event),
            match operation(call.phase()) {
                Action::Load(order) => event matches Event::State(state) && loads(
                    self.word(),
                ).contains((order, state)),
                Action::CompareAndSwap { current, new, order } => event matches Event::State(state)
                    && exchanged(self.word(), current, new, order, state),
                Action::Store { new, order } => stores(self.word()).contains((new, order)),
                _ => true,
            },
            event matches Event::State(state) ==> values(self.word()).contains(state),
            call.phase() is Swap && event == Event::State(EMPTY) ==> values(self.word()).contains(
                RUNNING,
            ),
            call.phase() matches Phase::Settle { success } ==> values(self.word()).contains(
                settled_state(success),
            ),
    {
        perform_on(&self.state, call)
    }

    /// Goes on with a call that has the mutex and has found `state`, setting it to `RUNNING` if it
    /// was `EMPTY`. Runs `init` only in that case, and sets the state according to how it ends: back
    /// to `EMPTY` if it fails or unwinds. Otherwise it lets the state be. What is left is to unlock the
    /// mutex.
    pub fn resume<F, E>(
        &self,
        held: &Held<'_>,
        call: &mut Attempt,
        state: usize,
        init: F,
    ) -> (result: Result<(), InitError<E>>) where F: FnOnce(&Running<'_>) -> Result<(), E>
        requires
            held_mutex(*held) == self.mutex,
            old(call).phase() is Swap,
            claim(state) is Won ==> {
                &&& (&self.state).allows(Operation::Store { new: COMPLETE, order: Order::Release })
                &&& (&self.state).allows(Operation::Store { new: EMPTY, order: Order::Relaxed })
                &&& forall|running: Running<'_>| #[trigger]
                    runs_for(running, self) ==> init.requires((&running,))
            },
        ensures
            resumed(self, *held, state, init, result),
            claim(state) is Won ==> values(self.word()).contains(settled_state(result is Ok)),
            final(call).phase() == (Phase::Unlock { outcome: outcome_of(result) }),
    {
        call.advance(Event::State(state));
        match call.action() {
            Action::Run => {
                let reset_if_failed = store_on_drop(&self.state, settled(false), Order::Relaxed);
                assert forall|running: Running<'_>|
                    #![trigger running.held(), running.reset()]
                    running.held() == *held && running.reset() == reset_if_failed implies init.requires(
                    (&running,),
                ) by {
                    assert(runs_for(running, self));
                }
                let (outcome, reset_if_failed) = run(held, reset_if_failed, init);
                let _kept = reset_if_failed.cancel();
                call.advance(Event::Ran(outcome.is_ok()));
                let event = self.perform(Some(held), call);
                call.advance(event);
                let ghost running = choose|running: Running<'_>|
                    running.held() == *held && running.reset() == reset_if_failed && #[trigger]
                    init.ensures((&running,), outcome);
                assert(runs_for(running, self));
                match outcome {
                    Ok(()) => {
                        assert(outcome->Ok_0 == ());
                        assert(ended(self, running, init, Ok::<(), InitError<E>>(())));
                        Ok(())
                    },
                    Err(error) => {
                        assert(ended(
                            self,
                            running,
                            init,
                            Err::<(), InitError<E>>(InitError::Failed(error)),
                        ));
                        Err(InitError::Failed(error))
                    },
                }
            },
            _ => if is_complete(state) {
                Ok(())
            } else {
                Err(InitError::Reentrant)
            },
        }
    }

    /// Runs `init` unless the cell is filled, and waits if another thread is running its own. `init`
    /// fills the slot of the cell when it succeeds. It runs only if this call has exchanged `EMPTY` for
    /// `RUNNING`, and while this call has the mutex and a guard that resets the state if `init` unwinds:
    /// it is given both. The mutex is given back in the end.
    ///
    /// Which state the call finds depends on the other threads. It succeeds if it finds the cell
    /// filled at once. If not, it locks the mutex and exchanges `EMPTY` for `RUNNING`, and what that
    /// finds decides.
    pub fn initialize<F, E>(&self, init: F) -> (result: Result<(), InitError<E>>) where
        F: FnOnce(&Running<'_>) -> Result<(), E>,

        requires
            (&self.state).allows(Operation::Load(Order::Acquire)),
            forall|probed: usize| #[trigger]
                loads(self.word()).contains((Order::Acquire, probed)) && !is_filled(probed) ==> (
                &self.state).allows(
                    Operation::Exchange { current: EMPTY, new: RUNNING, order: Order::Relaxed },
                ),
            exchanged(self.word(), EMPTY, RUNNING, Order::Relaxed, EMPTY) ==> {
                &&& (&self.state).allows(Operation::Store { new: COMPLETE, order: Order::Release })
                &&& (&self.state).allows(Operation::Store { new: EMPTY, order: Order::Relaxed })
                &&& forall|running: Running<'_>| #[trigger]
                    runs_for(running, self) ==> init.requires((&running,))
            },
        ensures
            exists|probed: usize| #[trigger]
                loads(self.word()).contains((Order::Acquire, probed)) && if is_filled(probed) {
                    result is Ok
                } else {
                    was_locked(self.mutex) && exists|state: usize, unlocked: Unlocked<'_>|
                        held_mutex(unlocked.guard()) == self.mutex && exchanged(
                            self.word(),
                            EMPTY,
                            RUNNING,
                            Order::Relaxed,
                            state,
                        ) && #[trigger] resumed(self, unlocked.guard(), state, init, result)
                },
            result is Err ==> was_locked(self.mutex),
            match result {
                Ok(()) => values(self.word()).contains(COMPLETE),
                Err(InitError::Failed(_)) => values(self.word()).contains(EMPTY) && values(
                    self.word(),
                ).contains(RUNNING),
                Err(InitError::Reentrant) => exists|state: usize| #[trigger]
                    values(self.word()).contains(state) && claim(state) is Reentrant,
            },
    {
        let mut call = Attempt::new();
        let probed = self.perform(None, &call);
        call.advance(probed);
        if let Action::Return(_) = call.action() {
            return Ok(());
        }
        let held = self.lock();
        call.advance(Event::Finished);
        let result = match self.perform(Some(&held), &call) {
            Event::State(state) => self.resume(&held, &mut call, state, init),
            _ => Ok(()),
        };
        let _unlocked = give_back(held);
        call.advance(Event::Finished);
        result
    }
}

/// Performs the operation of `call`, if it is one on the state: this one, once, and no other.
fn perform_on<'a, W: Word<'a>>(word: W, call: &Attempt) -> (event: Event)
    requires
        call.phase() is Probe || call.phase() is Swap || call.phase() is Settle,
        on_state(operation(call.phase())) matches Some(operation) ==> word.allows(operation),
    ensures
        answers(call.phase(), event),
        match operation(call.phase()) {
            Action::Load(order) => event matches Event::State(state) && loads(
                word.target(),
            ).contains((order, state)) && values(word.target()).contains(state),
            Action::CompareAndSwap { current, new, order } => event matches Event::State(state)
                && exchanged(word.target(), current, new, order, state) && values(
                word.target(),
            ).contains(state) && (state == current ==> values(word.target()).contains(new)),
            Action::Store { new, order } => stores(word.target()).contains((new, order)) && values(
                word.target(),
            ).contains(new),
            _ => true,
        },
{
    match call.action() {
        Action::Load(order) => Event::State(load(word, order)),
        Action::CompareAndSwap { current, new, order } => Event::State(
            compare_and_swap(word, current, new, order),
        ),
        Action::Store { new, order } => {
            store(&word.access(Operation::Store { new, order }), new, order);
            Event::Finished
        },
        _ => Event::Finished,
    }
}

} // verus!
