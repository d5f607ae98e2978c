//! Parking on a keyed event.
//!
//! A thread that waits for a keyed event sleeps until another one releases it. There is no comparison
//! as the thread goes to sleep. Releasing blocks until there is a thread to wake. So the reserved bits
//! of the word count the threads that sleep or are about to, and the event is released as often.

use vstd::prelude::*;

use super::{
    park_operation, public_bits, reserved_bits, unpark_operation, RESERVED_MASK, Futex, ParkAction,
    ParkEvent, UnparkAction, UnparkEvent, Wait,
};
use crate::order::Order;
use crate::word::{leaves, Operation};

verus! {

/// `word` with one more thread counted.
pub open spec fn with_waiter(word: usize) -> usize {
    public_bits(word) | ((reserved_bits(word) + 1) as usize)
}

/// Counting a thread leaves the public bits alone.
pub proof fn law_counting(word: usize)
    requires
        reserved_bits(word) < RESERVED_MASK,
    ensures
        reserved_bits(with_waiter(word)) == reserved_bits(word) + 1,
        public_bits(with_waiter(word)) == public_bits(word),
{
    let count = reserved_bits(word);
    assert(count < RESERVED_MASK ==> ((word & !RESERVED_MASK) | ((count + 1) as usize))
        & RESERVED_MASK == count + 1 && ((word & !RESERVED_MASK) | ((count + 1) as usize))
        & !RESERVED_MASK == word & !RESERVED_MASK) by (bit_vector);
}

/// How far a call has come.
#[derive(Clone, Copy, Debug, PartialEq, Eq, Structural)]
pub enum Phase {
    /// Nothing was performed yet, or the call is over.
    Idle,
    /// The word is being loaded.
    Loading,
    /// This thread is being counted in `current`.
    Counting { current: usize },
    /// The thread sleeps.
    Sleeping,
    /// The word is being replaced.
    Swapping,
    /// The event is being released. This has to be done `left` times more.
    Releasing { left: usize },
}

/// A call on a platform with keyed events.
#[derive(Clone, Copy, Debug, PartialEq, Eq, Structural)]
pub struct KeyedFutex {
    pub phase: Phase,
}

impl KeyedFutex {
    /// A call that has done nothing yet.
    pub fn new() -> (call: Self)
        ensures
            call == (KeyedFutex { phase: Phase::Idle }),
    {
        KeyedFutex { phase: Phase::Idle }
    }

    /// How a call that parks goes on that has just read `word`.
    pub open spec fn has_read(self, word: usize, parks: bool) -> (Self, ParkAction) {
        if parks {
            (
                KeyedFutex { phase: Phase::Counting { current: word } },
                ParkAction::CompareAndSwap {
                    current: word,
                    new: with_waiter(word),
                    order: Order::Relaxed,
                },
            )
        } else {
            (KeyedFutex { phase: Phase::Idle }, ParkAction::Return)
        }
    }

    fn on_read(&mut self, word: usize, parks: bool) -> (action: ParkAction)
        requires
            parks ==> reserved_bits(word) < RESERVED_MASK,
        ensures
            (*final(self), action) == old(self).has_read(word, parks),
    {
        if parks {
            // We need to store that there is one more waiter.
            let waiter_count: usize = word & RESERVED_MASK;
            self.phase = Phase::Counting { current: word };
            ParkAction::CompareAndSwap {
                current: word,
                new: (word & !RESERVED_MASK) | (waiter_count + 1),
                order: Order::Relaxed,
            }
        } else {
            self.phase = Phase::Idle;
            ParkAction::Return
        }
    }

    /// How a call that unparks goes on that has to release the event `count` times.
    pub open spec fn releases(self, count: usize) -> (Self, UnparkAction) {
        if count == 0 {
            (KeyedFutex { phase: Phase::Idle }, UnparkAction::Return)
        } else {
            (
                KeyedFutex { phase: Phase::Releasing { left: (count - 1) as usize } },
                UnparkAction::Release,
            )
        }
    }

    fn release(&mut self, count: usize) -> (action: UnparkAction)
        ensures
            (*final(self), action) == old(self).releases(count),
    {
        if count == 0 {
            self.phase = Phase::Idle;
            UnparkAction::Return
        } else {
            self.phase = Phase::Releasing { left: count - 1 };
            UnparkAction::Release
        }
    }
}

impl Futex for KeyedFutex {
    open spec fn park_answers(self, event: ParkEvent) -> bool {
        match self.phase {
            Phase::Idle => event is Start,
            Phase::Loading => event is Loaded,
            Phase::Counting { .. } => event is Swapped,
            Phase::Sleeping => event is Woken,
            _ => false,
        }
    }

    open spec fn park_reads(self, event: ParkEvent) -> Option<usize> {
        match (self.phase, event) {
            (Phase::Loading, ParkEvent::Loaded(word)) => Some(word),
            (Phase::Counting { current }, ParkEvent::Swapped(word)) => if word != current {
                Some(word)
            } else {
                None
            },
            _ => None,
        }
    }

    /// The count must leave room for one more thread.
    open spec fn park_room(self, word: usize) -> bool {
        reserved_bits(word) < RESERVED_MASK
    }

    open spec fn park_next(self, event: ParkEvent, parks: bool) -> (Self, ParkAction) {
        match self.park_reads(event) {
            Some(word) => self.has_read(word, parks),
            None => match self.phase {
                Phase::Counting { .. } => (
                    KeyedFutex { phase: Phase::Sleeping },
                    ParkAction::Wait(Wait::Keyed),
                ),
                _ => (KeyedFutex { phase: Phase::Loading }, ParkAction::Load(Order::Relaxed)),
            },
        }
    }

    proof fn law_return_follows_read(self, event: ParkEvent, parks: bool) {
    }

    proof fn law_orders(self, event: ParkEvent, parks: bool, done: UnparkEvent, new: usize) {
    }

    proof fn law_unpark_sets_word(self, event: UnparkEvent, new: usize) {
    }

    proof fn law_park_keeps_public_bits(self, event: ParkEvent, parks: bool, found: usize) {
        if let Some(word) = self.park_reads(event) {
            if parks {
                law_counting(word);
            }
        }
    }

    fn park<P>(&mut self, event: ParkEvent, should_park: P) -> (action: ParkAction) where
        P: Fn(usize) -> bool,
     {
        let read: Option<usize> = match (self.phase, event) {
            (Phase::Loading, ParkEvent::Loaded(word)) => Some(word),
            (Phase::Counting { current }, ParkEvent::Swapped(word)) => if word != current {
                Some(word)
            } else {
                None
            },
            _ => None,
        };
        let mut parks = true;
        let action = match read {
            Some(word) => {
                parks = should_park(word & !RESERVED_MASK);
                self.on_read(word, parks)
            },
            None => match self.phase {
                Phase::Counting { .. } => {
                    self.phase = Phase::Sleeping;
                    ParkAction::Wait(Wait::Keyed)
                },
                _ => {
                    self.phase = Phase::Loading;
                    ParkAction::Load(Order::Relaxed)
                },
            },
        };
        assert((*self, action) == old(self).park_next(event, parks));
        action
    }

    open spec fn unpark_answers(self, event: UnparkEvent) -> bool {
        match self.phase {
            Phase::Idle => event is Start,
            Phase::Swapping => event is Swapped,
            Phase::Releasing { .. } => event is Finished,
            _ => false,
        }
    }

    open spec fn unpark_next(self, event: UnparkEvent, new: usize) -> (Self, UnparkAction) {
        match (self.phase, event) {
            (Phase::Swapping, UnparkEvent::Swapped(word)) => self.releases(reserved_bits(word)),
            (Phase::Releasing { left }, UnparkEvent::Finished) => self.releases(left),
            _ => (
                KeyedFutex { phase: Phase::Swapping },
                UnparkAction::Swap { new, order: Order::Release },
            ),
        }
    }

    fn store_and_unpark(&mut self, event: UnparkEvent, new: usize) -> (action: UnparkAction) {
        match (self.phase, event) {
            (Phase::Swapping, UnparkEvent::Swapped(word)) => self.release(word & RESERVED_MASK),
            (Phase::Releasing { left }, UnparkEvent::Finished) => self.release(left),
            _ => {
                self.phase = Phase::Swapping;
                UnparkAction::Swap { new, order: Order::Release }
            },
        }
    }
}

/// How far a thread has come, and its next operation.
pub enum Thread {
    /// It parks.
    Parking { call: KeyedFutex, action: ParkAction },
    /// It sets the word to `new` and unparks all threads.
    Unparking { call: KeyedFutex, work: UnparkAction, new: usize },
}

/// Some threads that park on one word and unpark each other, one operation at a time.
pub struct System {
    /// The word.
    pub word: usize,
    /// How far each thread has come.
    pub threads: Seq<Thread>,
    /// What each thread's predicate says of the public bits.
    pub should_park: spec_fn(int, usize) -> bool,
}

/// A step: which thread makes it; what its next call sets the word to, if a call is over and the next
/// one is to unpark; which thread wakes up, if the event is released.
pub struct Move {
    pub thread: int,
    pub again: Option<usize>,
    pub woken: int,
}

/// A thread that starts a call: one that sets the word to `new`, or one that parks.
pub open spec fn start(new: Option<usize>) -> Thread {
    let call = KeyedFutex { phase: Phase::Idle };
    match new {
        Some(new) => {
            let (call, work) = call.unpark_next(UnparkEvent::Start, new);
            Thread::Unparking { call, work, new }
        },
        None => {
            let (call, action) = call.park_next(ParkEvent::Start, false);
            Thread::Parking { call, action }
        },
    }
}

/// A call that unparks leaves the reserved bits to the parked threads.
pub open spec fn leaves_reserved(new: Option<usize>) -> bool {
    new matches Some(word) ==> reserved_bits(word) == 0
}

/// The start: no thread is parked, and every thread starts a call. There are no more threads than the
/// reserved bits can count.
pub open spec fn initial(s: System) -> bool {
    &&& reserved_bits(s.word) == 0
    &&& s.threads.len() <= RESERVED_MASK
    &&& forall|t: int|
        0 <= t < s.threads.len() ==> exists|new: Option<usize>|
            leaves_reserved(new) && #[trigger] s.threads[t] == #[trigger] start(new)
}

/// How a thread that parks goes on when `event` came back.
pub open spec fn parking(s: System, t: int, call: KeyedFutex, event: ParkEvent) -> Thread {
    let parks = call.park_reads(event) matches Some(word) && (s.should_park)(t, public_bits(word));
    let (call, action) = call.park_next(event, parks);
    Thread::Parking { call, action }
}

/// How a thread that unparks goes on when `event` came back.
pub open spec fn unparking(call: KeyedFutex, new: usize, event: UnparkEvent) -> Thread {
    let (call, work) = call.unpark_next(event, new);
    Thread::Unparking { call, work, new }
}

/// Whether a thread sleeps, or is about to.
pub open spec fn sleeps(thread: Thread) -> bool {
    thread matches Thread::Parking { action, .. } && action is Wait
}

/// Whether a step can be made: a thread that sleeps makes none, and the event is released only when a
/// thread sleeps that wakes up.
pub open spec fn enabled(s: System, m: Move) -> bool {
    &&& 0 <= m.thread < s.threads.len()
    &&& !sleeps(s.threads[m.thread])
    &&& s.threads[m.thread] matches Thread::Unparking { work, .. } ==> work is Release ==> 0
        <= m.woken < s.threads.len() && sleeps(s.threads[m.woken])
}

/// The system after a step.
pub open spec fn after(s: System, m: Move) -> System {
    let t = m.thread;
    match s.threads[t] {
        Thread::Parking { call, action } => match action {
            ParkAction::Load(_) => System {
                threads: s.threads.update(t, parking(s, t, call, ParkEvent::Loaded(s.word))),
                ..s
            },
            ParkAction::CompareAndSwap { current, new, .. } => System {
                word: if s.word == current {
                    new
                } else {
                    s.word
                },
                threads: s.threads.update(t, parking(s, t, call, ParkEvent::Swapped(s.word))),
                ..s
            },
            _ => System { threads: s.threads.update(t, start(m.again)), ..s },
        },
        Thread::Unparking { call, work, new } => match work {
            UnparkAction::Swap { new: word, .. } => System {
                word,
                threads: s.threads.update(t, unparking(call, new, UnparkEvent::Swapped(s.word))),
                ..s
            },
            UnparkAction::Release => System {
                threads: s.threads.update(t, unparking(call, new, UnparkEvent::Finished)).update(
                    m.woken,
                    parking(s, m.woken, s.threads[m.woken]->Parking_call, ParkEvent::Woken),
                ),
                ..s
            },
            _ => System { threads: s.threads.update(t, start(m.again)), ..s },
        },
    }
}

/// A run: the states of a system from the start on, and the steps between them.
pub open spec fn is_run(states: Seq<System>, moves: Seq<Move>) -> bool {
    &&& states.len() == moves.len() + 1
    &&& initial(states[0])
    &&& forall|i: int| 0 <= i < moves.len() ==> {
        &&& enabled(states[i], #[trigger] moves[i])
        &&& leaves_reserved(moves[i].again)
        &&& states[i + 1] == after(states[i], moves[i])
    }
}

/// How often a thread has still to release the event.
pub open spec fn owes(thread: Thread) -> nat {
    match thread {
        Thread::Unparking { call, work, .. } => match call.phase {
            Phase::Releasing { left } => left as nat + 1,
            _ => 0,
        },
        _ => 0,
    }
}

/// How many threads sleep or are about to.
pub open spec fn sleepers(threads: Seq<Thread>) -> nat
    decreases threads.len(),
{
    if threads.len() == 0 {
        0
    } else {
        sleepers(threads.drop_last()) + if sleeps(threads.last()) {
            1nat
        } else {
            0
        }
    }
}

/// How often the threads together have still to release the event.
pub open spec fn owed(threads: Seq<Thread>) -> nat
    decreases threads.len(),
{
    if threads.len() == 0 {
        0
    } else {
        owed(threads.drop_last()) + owes(threads.last())
    }
}

proof fn lemma_update(threads: Seq<Thread>, t: int, thread: Thread)
    requires
        0 <= t < threads.len(),
    ensures
        sleepers(threads.update(t, thread)) + (if sleeps(threads[t]) {
            1int
        } else {
            0
        }) == sleepers(threads) + if sleeps(thread) {
            1int
        } else {
            0
        },
        owed(threads.update(t, thread)) + owes(threads[t]) == owed(threads) + owes(thread),
        sleeps(threads[t]) ==> sleepers(threads) > 0,
    decreases threads.len(),
{
    let updated = threads.update(t, thread);
    if t == threads.len() - 1 {
        assert(updated.drop_last() =~= threads.drop_last());
    } else {
        lemma_update(threads.drop_last(), t, thread);
        assert(updated.drop_last() =~= threads.drop_last().update(t, thread));
    }
}

proof fn lemma_totals(threads: Seq<Thread>)
    ensures
        sleepers(threads) <= threads.len(),
        sleepers(threads) > 0 ==> exists|t: int|
            0 <= t < threads.len() && sleeps(#[trigger] threads[t]),
        forall|t: int| 0 <= t < threads.len() ==> owed(threads) >= owes(#[trigger] threads[t]),
        forall|t: int|
            0 <= t < threads.len() && sleeps(#[trigger] threads[t]) ==> sleepers(threads) > 0,
        (forall|t: int|
            0 <= t < threads.len() ==> !sleeps(#[trigger] threads[t]) && owes(threads[t]) == 0)
            ==> sleepers(threads) == 0 && owed(threads) == 0,
    decreases threads.len(),
{
    if threads.len() > 0 {
        let rest = threads.drop_last();
        lemma_totals(rest);
        if sleepers(rest) > 0 {
            let t = choose|t: int| 0 <= t < rest.len() && sleeps(#[trigger] rest[t]);
            assert(sleeps(threads[t]));
        } else if sleepers(threads) > 0 {
            assert(sleeps(threads[threads.len() - 1]));
        }
        assert forall|t: int| 0 <= t < threads.len() implies owed(threads) >= owes(
            #[trigger] threads[t],
        ) by {
            if t < rest.len() {
                assert(rest[t] == threads[t]);
            }
        }
        assert forall|t: int|
            0 <= t < threads.len() && sleeps(#[trigger] threads[t]) implies sleepers(threads)
            > 0 by {
            if t < rest.len() {
                assert(rest[t] == threads[t]);
            }
        }
        if forall|t: int|
            0 <= t < threads.len() ==> !sleeps(#[trigger] threads[t]) && owes(threads[t]) == 0 {
            assert forall|t: int| 0 <= t < rest.len() implies !sleeps(#[trigger] rest[t]) && owes(
                rest[t],
            ) == 0 by {
                assert(rest[t] == threads[t]);
            }
            assert(threads.last() == threads[threads.len() - 1]);
        }
    }
}

/// Whether thread `t` should be parked by the public bits of the word.
pub open spec fn is_matched(s: System, t: int) -> bool {
    0 <= t < s.threads.len() && (s.should_park)(t, public_bits(s.word))
}

/// What holds of how far thread `t` has come.
pub open spec fn thread_sound(
    should_park: spec_fn(int, usize) -> bool,
    t: int,
    thread: Thread,
) -> bool {
    match thread {
        Thread::Parking { call, action } => match call.phase {
            Phase::Idle => action is Return,
            Phase::Loading => action is Load,
            Phase::Counting { current } => {
                &&& should_park(t, public_bits(current))
                &&& action matches ParkAction::CompareAndSwap { current: seen, new, .. } && seen
                    == current && new == with_waiter(current)
            },
            Phase::Sleeping => action is Wait,
            _ => false,
        },
        Thread::Unparking { call, work, new } => {
            &&& reserved_bits(new) == 0
            &&& match call.phase {
                Phase::Idle => work is Return,
                Phase::Swapping => work matches UnparkAction::Swap { new: word, .. } && word == new,
                Phase::Releasing { .. } => work is Release,
                _ => false,
            }
        },
    }
}

/// What holds in every state.
pub open spec fn sound(s: System) -> bool {
    &&& s.threads.len() <= RESERVED_MASK
    &&& forall|t: int|
        0 <= t < s.threads.len() ==> thread_sound(s.should_park, t, #[trigger] s.threads[t])
    &&& sleepers(s.threads) == reserved_bits(s.word) + owed(s.threads)
    &&& reserved_bits(s.word) != 0 ==> exists|t: int| is_matched(s, t)
}

proof fn lemma_initial(s: System)
    requires
        initial(s),
    ensures
        sound(s),
{
    assert forall|t: int| 0 <= t < s.threads.len() implies thread_sound(
        s.should_park,
        t,
        #[trigger] s.threads[t],
    ) && !sleeps(s.threads[t]) && owes(s.threads[t]) == 0 by {}
    lemma_totals(s.threads);
}

/// While some thread does not sleep, the word counts less than the reserved bits can hold.
proof fn lemma_room(s: System, t: int)
    requires
        sound(s),
        0 <= t < s.threads.len(),
        !sleeps(s.threads[t]),
    ensures
        reserved_bits(s.word) < RESERVED_MASK,
{
    let asleep = Thread::Parking {
        call: KeyedFutex { phase: Phase::Sleeping },
        action: ParkAction::Wait(Wait::Keyed),
    };
    lemma_update(s.threads, t, asleep);
    lemma_totals(s.threads.update(t, asleep));
}

proof fn lemma_step(s: System, m: Move)
    requires
        sound(s),
        enabled(s, m),
        leaves_reserved(m.again),
    ensures
        sound(after(s, m)),
{
    let t = m.thread;
    let s1 = after(s, m);
    assert(thread_sound(s.should_park, t, s.threads[t]));
    lemma_totals(s.threads);
    if s.threads[t] matches Thread::Unparking { work, .. } && work is Release {
        assert(thread_sound(s.should_park, m.woken, s.threads[m.woken]));
        let halfway = s.threads.update(t, s1.threads[t]);
        lemma_update(s.threads, t, s1.threads[t]);
        lemma_update(halfway, m.woken, s1.threads[m.woken]);
    } else {
        lemma_update(s.threads, t, s1.threads[t]);
        if s.threads[t] matches Thread::Parking { action, .. } && action is CompareAndSwap {
            if sleeps(s1.threads[t]) {
                lemma_room(s, t);
                law_counting(s.word);
                assert(is_matched(s1, t));
            }
        }
    }
    if reserved_bits(s1.word) != 0 && s1.word == s.word {
        let u = choose|u: int| is_matched(s, u);
        assert(is_matched(s1, u));
    }
}

proof fn lemma_sound(states: Seq<System>, moves: Seq<Move>, i: int)
    requires
        is_run(states, moves),
        0 <= i < states.len(),
    ensures
        sound(states[i]),
    decreases i,
{
    if i == 0 {
        lemma_initial(states[0]);
    } else {
        lemma_sound(states, moves, i - 1);
        lemma_step(states[i - 1], moves[i - 1]);
    }
}

/// The count is right: the threads that sleep or are about to are those counted in the word, and as
/// many more as the event is still to be released.
pub proof fn law_count(states: Seq<System>, moves: Seq<Move>, i: int)
    requires
        is_run(states, moves),
        0 <= i < states.len(),
    ensures
        sleepers(states[i].threads) == reserved_bits(states[i].word) + owed(states[i].threads),
{
    lemma_sound(states, moves, i);
}

/// The count has room for a thread that is about to be counted.
pub proof fn law_count_has_room(states: Seq<System>, moves: Seq<Move>, i: int, t: int)
    requires
        is_run(states, moves),
        0 <= i < states.len(),
        0 <= t < states[i].threads.len(),
        !sleeps(states[i].threads[t]),
    ensures
        reserved_bits(states[i].word) < RESERVED_MASK,
{
    lemma_sound(states, moves, i);
    lemma_room(states[i], t);
}

/// Releasing the event never hangs: there is a thread to wake.
pub proof fn law_release_finds_sleeper(
    states: Seq<System>,
    moves: Seq<Move>,
    i: int,
    t: int,
) -> (woken: int)
    requires
        is_run(states, moves),
        0 <= i < states.len(),
        0 <= t < states[i].threads.len(),
        states[i].threads[t] matches Thread::Unparking { work, .. } && work is Release,
    ensures
        enabled(states[i], (Move { thread: t, again: None, woken })),
{
    lemma_sound(states, moves, i);
    lemma_totals(states[i].threads);
    assert(thread_sound(states[i].should_park, t, states[i].threads[t]));
    choose|woken: int|
        0 <= woken < states[i].threads.len() && sleeps(#[trigger] states[i].threads[woken])
}

/// When the word counts no thread and no release is owed, no thread sleeps.
pub proof fn law_all_woken(states: Seq<System>, moves: Seq<Move>, i: int, t: int)
    requires
        is_run(states, moves),
        0 <= i < states.len(),
        0 <= t < states[i].threads.len(),
        reserved_bits(states[i].word) == 0,
        forall|u: int|
            0 <= u < states[i].threads.len() ==> owes(#[trigger] states[i].threads[u]) == 0,
    ensures
        !sleeps(states[i].threads[t]),
{
    lemma_sound(states, moves, i);
    lemma_totals(states[i].threads);
    lemma_owed_zero(states[i].threads);
}

/// No wakeup is lost. Where no thread should be parked by the public bits of the word, the word counts no
/// thread, and every thread that sleeps is owed a release: as many are still to come as threads sleep.
///
/// A release wakes any thread that sleeps. Where the word makes some threads park and others not, one of
/// the former can take the release that was meant for one of the latter.
pub proof fn law_no_lost_wakeup(states: Seq<System>, moves: Seq<Move>, i: int, t: int)
    requires
        is_run(states, moves),
        0 <= i < states.len(),
        forall|u: int| !(#[trigger] is_matched(states[i], u)),
        0 <= t < states[i].threads.len(),
        sleeps(states[i].threads[t]),
    ensures
        reserved_bits(states[i].word) == 0,
        owed(states[i].threads) == sleepers(states[i].threads),
        owed(states[i].threads) > 0,
{
    lemma_sound(states, moves, i);
    lemma_totals(states[i].threads);
}

/// Whether thread `t` is in a call that parks and has not returned.
pub open spec fn still_parks(s: System, t: int) -> bool {
    0 <= t < s.threads.len() && (s.threads[t] matches Thread::Parking { action, .. }
        && action !is Return)
}

/// Whether no thread should be parked by the public bits of the word.
pub open spec fn is_unmatched(s: System) -> bool {
    forall|u: int| !(#[trigger] is_matched(s, u))
}

/// Whether thread `t` is in a call that parks, in each state from `i` to `j`, although the public bits of the
/// word say of no thread that it should be parked.
pub open spec fn parks_in_vain(states: Seq<System>, i: int, j: int, t: int) -> bool {
    forall|k: int|
        i <= k <= j ==> still_parks(#[trigger] states[k], t) && is_unmatched(states[k])
}

/// How many operations thread `t` performs in the steps from `i` to before `j`.
pub open spec fn own_steps(moves: Seq<Move>, i: int, j: int, t: int) -> nat
    decreases j - i,
{
    if j <= i {
        0
    } else {
        own_steps(moves, i, j - 1, t) + if moves[j - 1].thread == t {
            1nat
        } else {
            0
        }
    }
}

/// How often the event is released, by whatever threads, in the steps from `i` to before `j`.
pub open spec fn releases_between(
    states: Seq<System>,
    moves: Seq<Move>,
    i: int,
    j: int,
) -> nat
    decreases j - i,
{
    if j <= i {
        0
    } else {
        releases_between(states, moves, i, j - 1) + if owes(
            states[j - 1].threads[moves[j - 1].thread],
        ) > 0 {
            1nat
        } else {
            0
        }
    }
}

/// Where no thread should be parked, only a release changes how many releases are owed.
proof fn lemma_owed_step(s: System, m: Move)
    requires
        sound(s),
        enabled(s, m),
        is_unmatched(s),
    ensures
        owed(after(s, m).threads) + (if owes(s.threads[m.thread]) > 0 {
            1int
        } else {
            0
        }) == owed(s.threads),
{
    let t = m.thread;
    let s1 = after(s, m);
    assert(thread_sound(s.should_park, t, s.threads[t]));
    if s.threads[t] matches Thread::Unparking { work, .. } && work is Release {
        assert(thread_sound(s.should_park, m.woken, s.threads[m.woken]));
        let halfway = s.threads.update(t, s1.threads[t]);
        lemma_update(s.threads, t, s1.threads[t]);
        lemma_update(halfway, m.woken, s1.threads[m.woken]);
    } else {
        lemma_update(s.threads, t, s1.threads[t]);
    }
}

/// A call that parks returns when the word says that no thread need park any more: no wakeup is lost. The
/// next operation of its own that it performs from then on is its last; and as long as it sleeps, the
/// event was released fewer times than was owed. So the call has returned when all these releases were
/// made and the thread itself has performed one operation.
///
/// The threads that owe a release can make it: [`law_release_finds_sleeper`]. Where the word makes other
/// threads park, see [`law_no_lost_wakeup`].
pub proof fn law_park_returns(states: Seq<System>, moves: Seq<Move>, i: int, j: int, t: int)
    requires
        is_run(states, moves),
        0 <= i <= j < states.len(),
        parks_in_vain(states, i, j, t),
    ensures
        own_steps(moves, i, j, t) == 0,
        releases_between(states, moves, i, j) + owed(states[j].threads) == owed(states[i].threads),
        sleeps(states[j].threads[t]) ==> releases_between(states, moves, i, j) < owed(
            states[i].threads,
        ),
    decreases j - i,
{
    assert(still_parks(states[j], t) && is_unmatched(states[j]));
    if i < j {
        law_park_returns(states, moves, i, j - 1, t);
        let s = states[j - 1];
        let m = moves[j - 1];
        lemma_sound(states, moves, j - 1);
        assert(enabled(s, m));
        assert(still_parks(s, t) && is_unmatched(s));
        assert(thread_sound(s.should_park, t, s.threads[t]));
        assert(!is_matched(s, t));
        lemma_owed_step(s, m);
    }
    if sleeps(states[j].threads[t]) {
        law_no_lost_wakeup(states, moves, j, t);
    }
}

proof fn lemma_owed_zero(threads: Seq<Thread>)
    requires
        forall|u: int| 0 <= u < threads.len() ==> owes(#[trigger] threads[u]) == 0,
    ensures
        owed(threads) == 0,
    decreases threads.len(),
{
    if threads.len() > 0 {
        let rest = threads.drop_last();
        assert forall|u: int| 0 <= u < rest.len() implies owes(#[trigger] rest[u]) == 0 by {
            assert(rest[u] == threads[u]);
        }
        lemma_owed_zero(rest);
        assert(threads.last() == threads[threads.len() - 1]);
    }
}

/// How often thread `t` releases the event in the steps between `i` and `j`.
pub open spec fn released(states: Seq<System>, moves: Seq<Move>, i: int, j: int, t: int) -> nat
    decreases j - i,
{
    if j <= i + 1 {
        0
    } else {
        released(states, moves, i, j - 1, t) + if moves[j - 1].thread == t && owes(
            states[j - 1].threads[t],
        ) > 0 {
            1nat
        } else {
            0
        }
    }
}

/// Whether thread `t` has the event still to release, between the states `i` and `j`.
pub open spec fn keeps_releasing(states: Seq<System>, i: int, j: int, t: int) -> bool {
    forall|k: int| i < k < j ==> owes((#[trigger] states[k]).threads[t]) > 0
}

/// A call that unparks releases the event once for each thread that was counted when it set the word.
pub proof fn law_releases_all(states: Seq<System>, moves: Seq<Move>, i: int, j: int)
    requires
        is_run(states, moves),
        0 <= i < j < states.len(),
        states[i].threads[moves[i].thread] matches Thread::Unparking { work, .. } && work is Swap,
        keeps_releasing(states, i, j, moves[i].thread),
    ensures
        released(states, moves, i, j, moves[i].thread) + owes(states[j].threads[moves[i].thread])
            == reserved_bits(states[i].word),
    decreases j - i,
{
    let t = moves[i].thread;
    lemma_sound(states, moves, i);
    lemma_sound(states, moves, j - 1);
    assert(enabled(states[i], moves[i]));
    assert(thread_sound(states[i].should_park, t, states[i].threads[t]));
    lemma_lengths(states, moves, i, j - 1);
    if j > i + 1 {
        law_releases_all(states, moves, i, j - 1);
        assert(enabled(states[j - 1], moves[j - 1]));
        assert(owes(states[j - 1].threads[t]) > 0);
        assert(thread_sound(states[j - 1].should_park, t, states[j - 1].threads[t]));
        assert(thread_sound(
            states[j - 1].should_park,
            moves[j - 1].thread,
            states[j - 1].threads[moves[j - 1].thread],
        ));
    }
}

proof fn lemma_lengths(states: Seq<System>, moves: Seq<Move>, i: int, j: int)
    requires
        is_run(states, moves),
        0 <= i <= j < states.len(),
    ensures
        states[j].threads.len() == states[i].threads.len(),
    decreases j - i,
{
    if i < j {
        lemma_lengths(states, moves, i, j - 1);
        assert(enabled(states[j - 1], moves[j - 1]));
    }
}

/// The operation on the word that a thread performs next, if it is one.
pub open spec fn next_operation(thread: Thread) -> Option<Operation> {
    match thread {
        Thread::Parking { action, .. } => park_operation(action),
        Thread::Unparking { work, .. } => unpark_operation(work),
    }
}

/// The word changes by the operations that threads perform on it, and by nothing else: each step leaves there
/// what the operation leaves that [`perform_park`](super::perform_park) or
/// [`perform_unpark`](super::perform_unpark) performs for the thread.
pub proof fn law_word_changes_by_operation(states: Seq<System>, moves: Seq<Move>, i: int)
    requires
        is_run(states, moves),
        0 <= i < moves.len(),
    ensures
        match next_operation(states[i].threads[moves[i].thread]) {
            Some(operation) => states[i + 1].word == leaves(operation, states[i].word),
            None => states[i + 1].word == states[i].word,
        },
{
    lemma_sound(states, moves, i);
    assert(enabled(states[i], moves[i]));
    assert(thread_sound(states[i].should_park, moves[i].thread, states[i].threads[moves[i].thread]));
}

/// A call that unparks sets the word to the value that it was given. A call that has got further than its
/// first operation has done so, in step `k`, and has performed no other operation on the word since.
pub proof fn law_unpark_has_set_word(
    states: Seq<System>,
    moves: Seq<Move>,
    i: int,
    t: int,
) -> (k: int)
    requires
        is_run(states, moves),
        0 <= i < states.len(),
        0 <= t < states[i].threads.len(),
        states[i].threads[t] is Unparking,
        next_operation(states[i].threads[t]) is None,
    ensures
        0 <= k < i,
        moves[k].thread == t,
        states[k + 1].word == states[i].threads[t]->new,
        forall|m: int|
            k < m <= i ==> (#[trigger] states[m]).threads[t] is Unparking && next_operation(
                states[m].threads[t],
            ) is None && states[m].threads[t]->new == states[i].threads[t]->new,
    decreases i,
{
    if i == 0 {
        0
    } else {
        lemma_sound(states, moves, i - 1);
        let s = states[i - 1];
        let mover = moves[i - 1].thread;
        assert(enabled(states[i - 1], moves[i - 1]));
        assert(thread_sound(states[i - 1].should_park, mover, states[i - 1].threads[mover]));
        lemma_lengths(states, moves, i - 1, i);
        if moves[i - 1].woken == t && owes(s.threads[moves[i - 1].thread]) > 0 {
            assert(thread_sound(s.should_park, t, s.threads[t]));
        }
        if mover == t && next_operation(s.threads[t]) is Some {
            i - 1
        } else {
            law_unpark_has_set_word(states, moves, i - 1, t)
        }
    }
}

/// A thread that should be parked by the word that it has read is counted in that word and sleeps, if the word
/// is still the same.
pub proof fn law_sleeps_while_unchanged(s: System, m: Move)
    requires
        sound(s),
        enabled(s, m),
        is_matched(s, m.thread),
        s.threads[m.thread] matches Thread::Parking { action, .. } && action is Load,
    ensures
        ({
            let s1 = after(s, m);
            let s2 = after(s1, m);
            &&& reserved_bits(s2.word) == reserved_bits(s.word) + 1
            &&& public_bits(s2.word) == public_bits(s.word)
            &&& sleeps(s2.threads[m.thread])
        }),
{
    assert(thread_sound(s.should_park, m.thread, s.threads[m.thread]));
    lemma_room(s, m.thread);
    law_counting(s.word);
}

} // verus!
