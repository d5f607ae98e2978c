//! Parking one thread with a mutex, a condition variable and a flag.

use vstd::prelude::*;

pub use super::parker_flag::PosixParker;
use crate::order::Order;
use crate::word::{first_flag, flag_loads, flag_stores, flag_values, FlagOperation};

verus! {

/// What an operation gave back.
#[derive(Clone, Copy, Debug, PartialEq, Eq, Structural)]
pub enum ParkerEvent {
    /// Nothing was performed yet.
    Start,
    /// The thread has the mutex.
    Locked,
    /// The thread was woken, for whatever reason, and has the mutex again.
    Woken,
    /// The condition variable was signaled.
    Signaled,
    /// The mutex was given back.
    Unlocked,
}

/// An operation to perform.
#[derive(Clone, Copy, Debug, PartialEq, Eq, Structural)]
pub enum ParkerAction {
    /// Lock the mutex.
    Lock,
    /// Give the mutex back and wait for the condition variable, in one, and lock the mutex again.
    Wait,
    /// Signal the condition variable.
    Signal,
    /// Unlock the mutex.
    Unlock,
    /// Return.
    Return,
}

/// What a call that parks does next. `should_park` is the flag, which it reads when it has the mutex.
pub open spec fn park_next(event: ParkerEvent, should_park: bool) -> ParkerAction {
    match event {
        ParkerEvent::Start => ParkerAction::Lock,
        ParkerEvent::Unlocked => ParkerAction::Return,
        _ => if should_park {
            ParkerAction::Wait
        } else {
            ParkerAction::Unlock
        },
    }
}

/// What a call that unparks does next. It clears the flag when it has the mutex.
pub open spec fn unpark_next(event: ParkerEvent) -> ParkerAction {
    match event {
        ParkerEvent::Start => ParkerAction::Lock,
        ParkerEvent::Locked => ParkerAction::Signal,
        ParkerEvent::Unlocked => ParkerAction::Return,
        _ => ParkerAction::Unlock,
    }
}

/// What a call that parks does next when it has the mutex and has read the flag.
pub fn on_flag(should_park: bool) -> (action: ParkerAction)
    ensures
        action == park_next(ParkerEvent::Locked, should_park),
        action == park_next(ParkerEvent::Woken, should_park),
{
    if should_park {
        ParkerAction::Wait
    } else {
        ParkerAction::Unlock
    }
}

/// Something that one thread can park on until another unparks it, once.
pub trait ParkerWithState: Sized {
    /// The values that the parker's flag holds in the course of its life.
    spec fn flags(self) -> Set<bool>;

    /// The value that the parker's flag holds at first.
    spec fn flag_at_first(self) -> bool;

    /// The loads of the parker's flag in the course of its life: the order, and the value found.
    spec fn loads(self) -> Set<(Order, bool)>;

    /// The stores into the parker's flag in the course of its life: the value stored, and the order.
    spec fn stores(self) -> Set<(bool, Order)>;

    /// A parker that was not unparked.
    fn new() -> (parker: Self)
        ensures
            parker.flag_at_first(),
            parker.flags().contains(true),
    ;

    /// Takes in what the last operation of a call that parks gave back, and tells the next one.
    fn park(&self, event: ParkerEvent) -> (action: ParkerAction)
        requires
            event !is Signaled,
        ensures
            exists|should_park: bool|
                {
                    &&& event is Locked || event is Woken ==> self.flags().contains(should_park)
                        && self.loads().contains((Order::Relaxed, should_park))
                    &&& action == #[trigger] park_next(event, should_park)
                },
    ;

    /// Takes in what the last operation of a call that unparks gave back, and tells the next one.
    fn unpark(&self, event: ParkerEvent) -> (action: ParkerAction)
        requires
            event !is Woken,
        ensures
            action == unpark_next(event),
            event is Locked ==> self.flags().contains(false) && self.stores().contains(
                (false, Order::Relaxed),
            ),
    ;
}

impl ParkerWithState for PosixParker {
    open spec fn flags(self) -> Set<bool> {
        flag_values(self.flag())
    }

    open spec fn flag_at_first(self) -> bool {
        first_flag(self.flag())
    }

    open spec fn loads(self) -> Set<(Order, bool)> {
        flag_loads(self.flag())
    }

    open spec fn stores(self) -> Set<(bool, Order)> {
        flag_stores(self.flag())
    }

    fn new() -> (parker: Self) {
        PosixParker::armed()
    }

    fn park(&self, event: ParkerEvent) -> (action: ParkerAction) {
        proof {
            self.lemma_allows(FlagOperation::Load(Order::Relaxed));
        }
        self.on_park(event)
    }

    fn unpark(&self, event: ParkerEvent) -> (action: ParkerAction) {
        proof {
            self.lemma_allows(FlagOperation::Store { new: false, order: Order::Relaxed });
        }
        self.on_unpark(event)
    }
}

/// How far a thread that parks has come.
pub enum Sleeper {
    /// This is its next operation.
    Next(ParkerAction),
    /// It waits for the condition variable, without the mutex.
    Asleep,
    /// It was woken and waits for the mutex.
    Relock,
}

/// How far a thread has come.
pub enum Thread {
    /// It parks.
    Parking(Sleeper),
    /// It unparks, and this is its next operation.
    Unparking(ParkerAction),
}

/// Any number of threads that park on one parker and unpark it, one operation at a time. Reading or clearing
/// the flag goes with the lock or the wakeup before it.
pub struct System {
    /// The flag.
    pub should_park: bool,
    /// Whether somebody has the mutex.
    pub locked: bool,
    /// How far each thread has come.
    pub threads: Map<int, Thread>,
}

/// A step: which thread makes it; whether its next call parks, if a call is over; which thread wakes up, if
/// the condition variable is signaled.
pub struct Move {
    pub thread: int,
    pub parks: bool,
    pub woken: int,
}

/// A thread that starts a call, one that parks or one that unparks.
pub open spec fn start(parks: bool) -> Thread {
    if parks {
        Thread::Parking(Sleeper::Next(park_next(ParkerEvent::Start, true)))
    } else {
        Thread::Unparking(unpark_next(ParkerEvent::Start))
    }
}

/// The start: a new parker, and every thread starts a call.
pub open spec fn initial(s: System) -> bool {
    &&& s.should_park
    &&& !s.locked
    &&& forall|t: int| #[trigger]
        s.threads.contains_key(t) ==> s.threads[t] == start(true) || s.threads[t] == start(false)
}

/// Whether thread `t` waits for the condition variable.
pub open spec fn asleep(s: System, t: int) -> bool {
    s.threads.contains_key(t) && s.threads[t] == Thread::Parking(Sleeper::Asleep)
}

/// Whether thread `t` has cleared the flag and is about to signal the condition variable.
pub open spec fn signals(s: System, t: int) -> bool {
    s.threads.contains_key(t) && s.threads[t] == Thread::Unparking(ParkerAction::Signal)
}

/// Whether thread `t` has the mutex.
pub open spec fn holds(s: System, t: int) -> bool {
    s.threads.contains_key(t) && match s.threads[t] {
        Thread::Parking(Sleeper::Next(action)) => action is Wait || action is Unlock,
        Thread::Parking(_) => false,
        Thread::Unparking(action) => action is Signal || action is Unlock,
    }
}

/// Whether a step can be made. A locked mutex has to be waited for. A signal wakes a thread that waits for
/// it, if there is one. A thread may also wake up for no reason: that is the step of one that sleeps.
pub open spec fn enabled(s: System, m: Move) -> bool {
    &&& s.threads.contains_key(m.thread)
    &&& match s.threads[m.thread] {
        Thread::Parking(Sleeper::Next(action)) => action is Lock ==> !s.locked,
        Thread::Parking(Sleeper::Asleep) => true,
        Thread::Parking(Sleeper::Relock) => !s.locked,
        Thread::Unparking(action) => action is Lock ==> !s.locked,
    }
    &&& signals(s, m.thread) ==> asleep(s, m.woken) || forall|t: int| !(#[trigger] asleep(s, t))
}

/// The system after a step.
pub open spec fn after(s: System, m: Move) -> System {
    let t = m.thread;
    match s.threads[t] {
        Thread::Parking(Sleeper::Next(ParkerAction::Lock)) => System {
            locked: true,
            threads: s.threads.insert(
                t,
                Thread::Parking(Sleeper::Next(park_next(ParkerEvent::Locked, s.should_park))),
            ),
            ..s
        },
        Thread::Parking(Sleeper::Next(ParkerAction::Wait)) => System {
            locked: false,
            threads: s.threads.insert(t, Thread::Parking(Sleeper::Asleep)),
            ..s
        },
        Thread::Parking(Sleeper::Next(ParkerAction::Unlock)) => System {
            locked: false,
            threads: s.threads.insert(
                t,
                Thread::Parking(Sleeper::Next(park_next(ParkerEvent::Unlocked, s.should_park))),
            ),
            ..s
        },
        Thread::Parking(Sleeper::Asleep) => System {
            threads: s.threads.insert(t, Thread::Parking(Sleeper::Relock)),
            ..s
        },
        Thread::Parking(Sleeper::Relock) => System {
            locked: true,
            threads: s.threads.insert(
                t,
                Thread::Parking(Sleeper::Next(park_next(ParkerEvent::Woken, s.should_park))),
            ),
            ..s
        },
        Thread::Unparking(ParkerAction::Lock) => System {
            locked: true,
            should_park: false,
            threads: s.threads.insert(t, Thread::Unparking(unpark_next(ParkerEvent::Locked))),
        },
        Thread::Unparking(ParkerAction::Signal) => {
            let threads = s.threads.insert(t, Thread::Unparking(unpark_next(ParkerEvent::Signaled)));
            System {
                threads: if asleep(s, m.woken) {
                    threads.insert(m.woken, Thread::Parking(Sleeper::Relock))
                } else {
                    threads
                },
                ..s
            }
        },
        Thread::Unparking(ParkerAction::Unlock) => System {
            locked: false,
            threads: s.threads.insert(t, Thread::Unparking(unpark_next(ParkerEvent::Unlocked))),
            ..s
        },
        _ => System { threads: s.threads.insert(t, start(m.parks)), ..s },
    }
}

/// A run: the states of a system from the start on, and the steps between them.
pub open spec fn is_run(states: Seq<System>, moves: Seq<Move>) -> bool {
    &&& states.len() == moves.len() + 1
    &&& initial(states[0])
    &&& forall|i: int| 0 <= i < moves.len() ==> enabled(states[i], #[trigger] moves[i]) && states[i
        + 1] == after(states[i], moves[i])
}

/// What holds of how far a thread has come.
pub open spec fn thread_sound(should_park: bool, thread: Thread) -> bool {
    match thread {
        Thread::Parking(Sleeper::Next(action)) => {
            &&& action !is Signal
            &&& action is Wait ==> should_park
            &&& action is Unlock || action is Return ==> !should_park
        },
        Thread::Parking(_) => true,
        Thread::Unparking(action) => {
            &&& action !is Wait
            &&& action !is Lock ==> !should_park
        },
    }
}

/// What holds in every state.
pub open spec fn sound(s: System) -> bool {
    &&& forall|t: int| #[trigger]
        s.threads.contains_key(t) ==> thread_sound(s.should_park, s.threads[t])
    &&& s.locked ==> exists|t: int| holds(s, t)
    &&& forall|t: int| #[trigger] holds(s, t) ==> s.locked
    &&& forall|t: int, u: int| #[trigger] holds(s, t) && #[trigger] holds(s, u) ==> t == u
}

proof fn lemma_step(s: System, m: Move)
    requires
        sound(s),
        enabled(s, m),
    ensures
        sound(after(s, m)),
{
    let t = m.thread;
    let s1 = after(s, m);
    assert(thread_sound(s.should_park, s.threads[t]));
    assert forall|u: int| u != t implies #[trigger] holds(s1, u) == holds(s, u) by {}
    assert forall|u: int| #[trigger] s1.threads.contains_key(u) implies thread_sound(
        s1.should_park,
        s1.threads[u],
    ) by {
        assert(s.threads.contains_key(u));
        assert(thread_sound(s.should_park, s.threads[u]));
        if s1.should_park != s.should_park && u != t {
            assert(!holds(s, u));
        }
    }
    if s1.locked {
        if s.locked {
            let u = choose|u: int| holds(s, u);
            assert(holds(s1, u));
        } else {
            assert(holds(s1, t));
        }
    } else if s.locked {
        assert(holds(s, t));
    }
    assert(holds(s1, t) ==> s1.locked) by {
        assert(signals(s, t) ==> holds(s, t));
    }
    assert(holds(s1, t) && s.locked ==> holds(s, t));
    assert forall|u: int, v: int| #[trigger] holds(s1, u) && #[trigger] holds(s1, v) implies u
        == v by {
        assert(u != t ==> holds(s, u));
        assert(v != t ==> holds(s, v));
    }
}

proof fn lemma_sound(states: Seq<System>, moves: Seq<Move>, i: int)
    requires
        is_run(states, moves),
        0 <= i < states.len(),
    ensures
        sound(states[i]),
    decreases i,
{
    if i > 0 {
        lemma_sound(states, moves, i - 1);
        lemma_step(states[i - 1], moves[i - 1]);
    }
}

/// At most one thread has the mutex, and nobody waits for it for ever: it is locked exactly as long as some
/// thread has it, and that thread can make a step. A call that is over has given it back.
pub proof fn law_mutex_is_given_back(states: Seq<System>, moves: Seq<Move>, i: int)
    requires
        is_run(states, moves),
        0 <= i < states.len(),
    ensures
        forall|t: int, u: int| #[trigger]
            holds(states[i], t) && #[trigger] holds(states[i], u) ==> t == u,
        states[i].locked <==> exists|t: int| holds(states[i], t),
        forall|t: int| #[trigger]
            holds(states[i], t) ==> exists|m: Move| m.thread == t && #[trigger] enabled(states[i], m),
        forall|t: int| #[trigger]
            states[i].threads.contains_key(t) && is_over(states[i].threads[t]) ==> !holds(
                states[i],
                t,
            ),
{
    lemma_sound(states, moves, i);
    let s = states[i];
    assert forall|t: int| #[trigger] holds(s, t) implies exists|m: Move|
        m.thread == t && #[trigger] enabled(s, m) by {
        let woken = choose|woken: int| asleep(s, woken);
        let m = Move { thread: t, parks: false, woken };
        assert(enabled(s, m));
    }
}

/// Whether a call is over.
pub open spec fn is_over(thread: Thread) -> bool {
    match thread {
        Thread::Parking(Sleeper::Next(action)) => action is Return,
        Thread::Parking(_) => false,
        Thread::Unparking(action) => action is Return,
    }
}

/// A call that parks is over only when some call has unparked the parker before: it has cleared the flag in
/// step `k`.
pub proof fn law_returns_only_unparked(
    states: Seq<System>,
    moves: Seq<Move>,
    i: int,
    t: int,
) -> (k: int)
    requires
        is_run(states, moves),
        0 <= i < states.len(),
        states[i].threads.contains_key(t),
        states[i].threads[t] is Parking,
        is_over(states[i].threads[t]),
    ensures
        0 <= k < i,
        states[k].threads[moves[k].thread] == Thread::Unparking(ParkerAction::Lock),
        !states[i].should_park,
{
    lemma_sound(states, moves, i);
    assert(thread_sound(states[i].should_park, states[i].threads[t]));
    lemma_cleared(states, moves, i)
}

/// A flag that is clear was cleared in some step.
proof fn lemma_cleared(states: Seq<System>, moves: Seq<Move>, i: int) -> (k: int)
    requires
        is_run(states, moves),
        0 <= i < states.len(),
        !states[i].should_park,
    ensures
        0 <= k < i,
        states[k].threads[moves[k].thread] == Thread::Unparking(ParkerAction::Lock),
    decreases i,
{
    assert(i > 0);
    assert(enabled(states[i - 1], moves[i - 1]));
    if states[i - 1].should_park {
        i - 1
    } else {
        lemma_cleared(states, moves, i - 1)
    }
}

/// Once unparked, a parker stays unparked: no call that parks goes to sleep on it any more, neither the next
/// one nor any later one.
pub proof fn law_stays_unparked(states: Seq<System>, moves: Seq<Move>, i: int, j: int, t: int)
    requires
        is_run(states, moves),
        0 <= i <= j < states.len(),
        !states[i].should_park,
    ensures
        !states[j].should_park,
        asleep(states[j], t) ==> asleep(states[i], t),
        states[j].threads.contains_key(t) ==> states[j].threads[t] != Thread::Parking(
            Sleeper::Next(ParkerAction::Wait),
        ),
    decreases j - i,
{
    lemma_sound(states, moves, j);
    if i < j {
        law_stays_unparked(states, moves, i, j - 1, t);
        lemma_sound(states, moves, j - 1);
        assert(enabled(states[j - 1], moves[j - 1]));
        assert(thread_sound(
            states[j - 1].should_park,
            states[j - 1].threads[moves[j - 1].thread],
        ));
    }
}

/// A call that parks on a parker that is unparked returns without waiting for the condition variable: when
/// it gets the mutex it has only to give it back.
pub proof fn law_unparked_returns(states: Seq<System>, moves: Seq<Move>, i: int, m: Move)
    requires
        is_run(states, moves),
        0 <= i < states.len(),
        !states[i].should_park,
        enabled(states[i], m),
        states[i].threads[m.thread] == start(true) || states[i].threads[m.thread]
            == Thread::Parking(Sleeper::Relock),
    ensures
        ({
            let s1 = after(states[i], m);
            let s2 = after(s1, m);
            &&& holds(s1, m.thread)
            &&& enabled(s1, m)
            &&& s2.threads[m.thread] is Parking
            &&& is_over(s2.threads[m.thread])
            &&& !s2.locked
        }),
{
}

/// A thread that is the only one to sleep on a parker sleeps only until it is unparked: when the flag is
/// clear, a thread that has cleared it is about to wake the sleeper.
///
/// A signal wakes one thread. Where several sleep on one parker, the others sleep on.
pub proof fn law_parks_until_unparked(states: Seq<System>, moves: Seq<Move>, i: int, t: int)
    requires
        is_run(states, moves),
        0 <= i < states.len(),
        forall|k: int, u: int|
            0 <= k < states.len() && #[trigger] asleep(states[k], u) ==> u == t,
        asleep(states[i], t),
    ensures
        states[i].should_park || exists|u: int| signals(states[i], u),
    decreases i,
{
    assert(i > 0);
    lemma_sound(states, moves, i - 1);
    let s = states[i - 1];
    let s1 = states[i];
    let m = moves[i - 1];
    assert(enabled(s, m));
    assert(thread_sound(s.should_park, s.threads[m.thread]));
    if asleep(s, t) {
        law_parks_until_unparked(states, moves, i - 1, t);
        if s.threads[m.thread] == Thread::Unparking(ParkerAction::Lock) {
            assert(signals(s1, m.thread));
        } else if !s.should_park {
            let u = choose|u: int| signals(s, u);
            assert(u != m.thread);
            assert(signals(s1, u));
        }
    }
}

/// A call that parks on a parker that was not unparked goes to sleep, and gives the mutex back as it does.
pub proof fn law_sleeps_until_unparked(states: Seq<System>, moves: Seq<Move>, i: int, m: Move)
    requires
        is_run(states, moves),
        0 <= i < states.len(),
        states[i].should_park,
        enabled(states[i], m),
        states[i].threads[m.thread] == start(true) || states[i].threads[m.thread]
            == Thread::Parking(Sleeper::Relock),
    ensures
        ({
            let s1 = after(states[i], m);
            let s2 = after(s1, m);
            &&& holds(s1, m.thread)
            &&& enabled(s1, m)
            &&& asleep(s2, m.thread)
            &&& !s2.locked
        }),
{
}

} // verus!
