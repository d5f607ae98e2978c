//! Parking where the platform can put a thread to sleep on an address: it sleeps only if the word there
//! still is what the thread has seen, and is woken by address.

use vstd::prelude::*;

use super::{
    compare_half, law_half_shows_public_bits, park_operation, public_bits, unpark_operation,
    upper_half, RESERVED_MASK, Futex, ParkAction, ParkEvent, UnparkAction, UnparkEvent, Wait,
};
use crate::order::Order;
use crate::word::{leaves, Operation};

verus! {

/// What the platform compares before it puts a thread to sleep.
#[derive(Clone, Copy, Debug, PartialEq, Eq, Structural)]
pub enum Compare {
    /// The 32 bits that hold the public bits.
    Half,
    /// The whole word.
    Word,
}

/// A call on a platform that can put a thread to sleep on an address.
#[derive(Clone, Copy, Debug, PartialEq, Eq, Structural)]
pub struct AddressFutex {
    pub compare: Compare,
}

/// How a thread waits that has seen `word`.
pub open spec fn wait_while(compare: Compare, word: usize) -> Wait {
    match compare {
        Compare::Half => Wait::WhileHalf(upper_half(word)),
        Compare::Word => Wait::WhileWord(word),
    }
}

impl Futex for AddressFutex {
    open spec fn park_answers(self, event: ParkEvent) -> bool {
        !(event is Swapped)
    }

    open spec fn park_reads(self, event: ParkEvent) -> Option<usize> {
        match event {
            ParkEvent::Loaded(word) => Some(word),
            _ => None,
        }
    }

    open spec fn park_room(self, word: usize) -> bool {
        true
    }

    open spec fn park_next(self, event: ParkEvent, parks: bool) -> (Self, ParkAction) {
        (
            self,
            match event {
                ParkEvent::Loaded(word) => if parks {
                    ParkAction::Wait(wait_while(self.compare, word))
                } else {
                    ParkAction::Return
                },
                _ => ParkAction::Load(Order::Relaxed),
            },
        )
    }

    proof fn law_return_follows_read(self, event: ParkEvent, parks: bool) {
    }

    proof fn law_orders(self, event: ParkEvent, parks: bool, done: UnparkEvent, new: usize) {
    }

    proof fn law_unpark_sets_word(self, event: UnparkEvent, new: usize) {
    }

    proof fn law_park_keeps_public_bits(self, event: ParkEvent, parks: bool, found: usize) {
    }

    fn park<P>(&mut self, event: ParkEvent, should_park: P) -> (action: ParkAction) where
        P: Fn(usize) -> bool,
     {
        match event {
            ParkEvent::Loaded(word) => {
                let parks = should_park(word & !RESERVED_MASK);
                let action = if !parks {
                    ParkAction::Return
                } else {
                    match self.compare {
                        Compare::Half => ParkAction::Wait(Wait::WhileHalf(compare_half(word))),
                        Compare::Word => ParkAction::Wait(Wait::WhileWord(word)),
                    }
                };
                assert((*self, action) == old(self).park_next(event, parks));
                action
            },
            _ => {
                assert((*self, ParkAction::Load(Order::Relaxed)) == old(self).park_next(
                    event,
                    true,
                ));
                ParkAction::Load(Order::Relaxed)
            },
        }
    }

    open spec fn unpark_answers(self, event: UnparkEvent) -> bool {
        event is Start || event is Stored || event is Finished
    }

    open spec fn unpark_next(self, event: UnparkEvent, new: usize) -> (Self, UnparkAction) {
        (
            self,
            match event {
                UnparkEvent::Start => UnparkAction::Store { new, order: Order::Release },
                UnparkEvent::Stored => UnparkAction::WakeAll,
                _ => UnparkAction::Return,
            },
        )
    }

    fn store_and_unpark(&mut self, event: UnparkEvent, new: usize) -> (action: UnparkAction) {
        match event {
            UnparkEvent::Start => UnparkAction::Store { new, order: Order::Release },
            UnparkEvent::Stored => UnparkAction::WakeAll,
            _ => UnparkAction::Return,
        }
    }
}

/// How far a thread has come.
pub enum Thread {
    /// It parks, and this is its next operation.
    Parking(ParkAction),
    /// It sleeps.
    Asleep,
    /// It sets the word to `new` and unparks all threads, and this is its next operation.
    Unparking { action: UnparkAction, new: usize },
}

/// Any number of threads that park on one word and unpark each other, one operation at a time.
pub struct System {
    /// The word.
    pub word: usize,
    /// How far each thread has come.
    pub threads: Map<int, Thread>,
    /// What the platform compares.
    pub futex: AddressFutex,
    /// What each thread's predicate says of the public bits.
    pub should_park: spec_fn(int, usize) -> bool,
}

/// Whether a thread that waits like this sleeps when the word is `word`.
pub open spec fn sleeps_on(wait: Wait, word: usize) -> bool {
    match wait {
        Wait::WhileHalf(half) => upper_half(word) == half,
        Wait::WhileWord(seen) => word == seen,
        _ => false,
    }
}

/// The start: every thread is about to park or to unpark.
pub open spec fn initial(s: System) -> bool {
    forall|t: int| #[trigger]
        s.threads.contains_key(t) ==> match s.threads[t] {
            Thread::Parking(action) => action == s.futex.park_next(ParkEvent::Start, false).1,
            Thread::Asleep => false,
            Thread::Unparking { action, new } => action == s.futex.unpark_next(
                UnparkEvent::Start,
                new,
            ).1,
        }
}

/// The next operation of thread `t` when `event` came back.
pub open spec fn parking(s: System, t: int, event: ParkEvent) -> Thread {
    let parks = s.futex.park_reads(event) matches Some(word) && (s.should_park)(
        t,
        public_bits(word),
    );
    Thread::Parking(s.futex.park_next(event, parks).1)
}

/// The system after thread `t` has performed its operation. A sleeping thread's step is to wake up for
/// no reason. `again` is what a thread sets the word to next that has ended a call.
pub open spec fn after(s: System, t: int, again: usize) -> System {
    match s.threads[t] {
        Thread::Parking(action) => System {
            threads: s.threads.insert(
                t,
                match action {
                    ParkAction::Load(_) => parking(s, t, ParkEvent::Loaded(s.word)),
                    ParkAction::Wait(wait) => if sleeps_on(wait, s.word) {
                        Thread::Asleep
                    } else {
                        parking(s, t, ParkEvent::Woken)
                    },
                    _ => parking(s, t, ParkEvent::Start),
                },
            ),
            ..s
        },
        Thread::Asleep => System {
            threads: s.threads.insert(t, parking(s, t, ParkEvent::Woken)),
            ..s
        },
        Thread::Unparking { action, new } => match action {
            UnparkAction::Store { new: word, .. } => System {
                word,
                threads: s.threads.insert(
                    t,
                    Thread::Unparking {
                        action: s.futex.unpark_next(UnparkEvent::Stored, new).1,
                        new,
                    },
                ),
                ..s
            },
            UnparkAction::WakeAll => System {
                threads: Map::new(
                    |u: int| s.threads.contains_key(u),
                    |u: int|
                        if u == t {
                            Thread::Unparking {
                                action: s.futex.unpark_next(UnparkEvent::Finished, new).1,
                                new,
                            }
                        } else if s.threads[u] is Asleep {
                            parking(s, u, ParkEvent::Woken)
                        } else {
                            s.threads[u]
                        },
                ),
                ..s
            },
            _ => System {
                threads: s.threads.insert(
                    t,
                    Thread::Unparking {
                        action: s.futex.unpark_next(UnparkEvent::Start, again).1,
                        new: again,
                    },
                ),
                ..s
            },
        },
    }
}

/// A run: the states of a system from the start on, and which thread made each step.
pub open spec fn is_run(states: Seq<System>, moves: Seq<(int, usize)>) -> bool {
    &&& states.len() == moves.len() + 1
    &&& initial(states[0])
    &&& forall|i: int| 0 <= i < moves.len() ==> states[i].threads.contains_key(
        (#[trigger] moves[i]).0,
    ) && states[i + 1] == after(states[i], moves[i].0, moves[i].1)
}

/// Whether thread `t` has stored a word and has not yet woken the others.
pub open spec fn is_waking(s: System, t: int) -> bool {
    s.threads.contains_key(t) && (s.threads[t] matches Thread::Unparking { action, .. }
        && action is WakeAll)
}

/// Whether thread `t` has seen public bits on which it parks and is about to wait because of them.
pub open spec fn waits_for_reason(s: System, t: int, wait: Wait) -> bool {
    exists|word: usize|
        wait == #[trigger] wait_while(s.futex.compare, word) && (s.should_park)(
            t,
            public_bits(word),
        )
}

/// What holds in every state.
pub open spec fn sound(s: System) -> bool {
    &&& forall|t: int| #[trigger]
        s.threads.contains_key(t) ==> (s.threads[t] matches Thread::Unparking { action, new } ==> {
            &&& action is Store || action is WakeAll || action is Return
            &&& action matches UnparkAction::Store { new: word, .. } ==> word == new
        })
    &&& forall|t: int| #[trigger]
        s.threads.contains_key(t) ==> (s.threads[t] matches Thread::Parking(action) ==> action is Load
            || action is Wait || action is Return)
    &&& forall|t: int| #[trigger]
        s.threads.contains_key(t) ==> (s.threads[t] matches Thread::Parking(ParkAction::Wait(wait))
            ==> waits_for_reason(s, t, wait))
    &&& forall|t: int| #[trigger]
        s.threads.contains_key(t) && s.threads[t] is Asleep ==> (s.should_park)(
            t,
            public_bits(s.word),
        ) || exists|u: int| is_waking(s, u)
}

proof fn lemma_step(s: System, t: int, again: usize)
    requires
        sound(s),
        s.threads.contains_key(t),
    ensures
        sound(after(s, t, again)),
{
    let s1 = after(s, t, again);
    assert forall|u: int| #[trigger] s1.threads.contains_key(u) implies (
    s1.threads[u] matches Thread::Parking(ParkAction::Wait(wait)) ==> waits_for_reason(
        s1,
        u,
        wait,
    )) by {
        if let Thread::Parking(ParkAction::Wait(wait)) = s1.threads[u] {
            if u == t {
                assert(wait == wait_while(s.futex.compare, s.word));
            } else {
                let word = choose|word: usize|
                    wait == #[trigger] wait_while(s.futex.compare, word) && (s.should_park)(
                        u,
                        public_bits(word),
                    );
                assert(wait == wait_while(s1.futex.compare, word));
            }
        }
    }
    assert forall|u: int| #[trigger]
        s1.threads.contains_key(u) && s1.threads[u] is Asleep implies (s1.should_park)(
        u,
        public_bits(s1.word),
    ) || exists|v: int| is_waking(s1, v) by {
        if u == t {
            let wait = s.threads[t]->Parking_0->Wait_0;
            let word = choose|word: usize|
                wait == #[trigger] wait_while(s.futex.compare, word) && (s.should_park)(
                    t,
                    public_bits(word),
                );
            law_half_shows_public_bits(word, s.word);
        } else {
            if s.threads[t] matches Thread::Unparking { action, .. } && action is Store {
                assert(is_waking(s1, t));
            } else if !(s.should_park)(u, public_bits(s.word)) {
                let v = choose|v: int| is_waking(s, v);
                assert(v != t);
                assert(is_waking(s1, v));
            }
        }
    }
}

/// No wakeup is lost. While a thread sleeps, the word is such that it should be parked, or some thread
/// that has changed the word is about to wake it.
pub proof fn law_no_lost_wakeup(states: Seq<System>, moves: Seq<(int, usize)>, i: int, t: int)
    requires
        is_run(states, moves),
        0 <= i < states.len(),
        states[i].threads.contains_key(t),
        states[i].threads[t] is Asleep,
    ensures
        (states[i].should_park)(t, public_bits(states[i].word)) || exists|u: int|
            is_waking(states[i], u),
{
    lemma_sound(states, moves, i);
}

/// A call that unparks wakes all threads that sleep.
pub proof fn law_wakes_all(states: Seq<System>, moves: Seq<(int, usize)>, i: int, t: int)
    requires
        is_run(states, moves),
        0 <= i < moves.len(),
        is_waking(states[i], moves[i].0),
        states[i + 1].threads.contains_key(t),
    ensures
        states[i + 1].threads[t] !is Asleep,
{
    assert(states[i].threads.contains_key(moves[i].0));
}

/// Whether a thread is in a call that parks and has not returned.
pub open spec fn still_parks(s: System, t: int) -> bool {
    s.threads.contains_key(t) && match s.threads[t] {
        Thread::Parking(action) => action !is Return,
        Thread::Asleep => true,
        Thread::Unparking { .. } => false,
    }
}

/// Whether thread `t` is in a call that parks, in each state from `i` to `j`, although the public bits of the
/// word do not say that it should be parked.
pub open spec fn parks_in_vain(states: Seq<System>, i: int, j: int, t: int) -> bool {
    forall|k: int|
        i <= k <= j ==> still_parks(#[trigger] states[k], t) && !(states[k].should_park)(
            t,
            public_bits(states[k].word),
        )
}

/// How many operations thread `t` performs in the steps from `i` to before `j`.
pub open spec fn own_steps(moves: Seq<(int, usize)>, i: int, j: int, t: int) -> nat
    decreases j - i,
{
    if j <= i {
        0
    } else {
        own_steps(moves, i, j - 1, t) + if moves[j - 1].0 == t {
            1nat
        } else {
            0
        }
    }
}

/// How many operations of its own a thread needs at most to return that need not be parked.
spec fn rank(thread: Thread) -> nat {
    match thread {
        Thread::Parking(action) => if action is Wait {
            2
        } else {
            1
        },
        _ => 2,
    }
}

/// A thread that need not be parked does not go to sleep.
proof fn lemma_stays_awake(s: System, t: int)
    requires
        sound(s),
        s.threads.contains_key(t),
        !(s.should_park)(t, public_bits(s.word)),
    ensures
        s.threads[t] matches Thread::Parking(ParkAction::Wait(wait)) ==> !sleeps_on(wait, s.word),
{
    if let Thread::Parking(ParkAction::Wait(wait)) = s.threads[t] {
        let word = choose|word: usize|
            wait == #[trigger] wait_while(s.futex.compare, word) && (s.should_park)(
                t,
                public_bits(word),
            );
        law_half_shows_public_bits(word, s.word);
    }
}

proof fn lemma_rank(states: Seq<System>, moves: Seq<(int, usize)>, i: int, j: int, t: int)
    requires
        is_run(states, moves),
        0 <= i <= j < states.len(),
        parks_in_vain(states, i, j, t),
    ensures
        own_steps(moves, i, j, t) + rank(states[j].threads[t]) <= 2,
    decreases j - i,
{
    assert(still_parks(states[j], t));
    if i < j {
        lemma_rank(states, moves, i, j - 1, t);
        lemma_sound(states, moves, j - 1);
        assert(still_parks(states[j - 1], t));
        lemma_stays_awake(states[j - 1], t);
        assert(states[j - 1].threads.contains_key(moves[j - 1].0));
    }
}

proof fn lemma_asleep(states: Seq<System>, moves: Seq<(int, usize)>, i: int, j: int, t: int, u: int)
    requires
        is_run(states, moves),
        0 <= i <= j < states.len(),
        parks_in_vain(states, i, j, t),
        states[j].threads[t] is Asleep,
        states[i].threads[t] is Asleep ==> is_waking(states[i], u),
    ensures
        states[i].threads[t] is Asleep,
        is_waking(states[j], u),
        own_steps(moves, i, j, u) == 0,
    decreases j - i,
{
    if i < j {
        lemma_sound(states, moves, j - 1);
        assert(still_parks(states[j - 1], t));
        lemma_stays_awake(states[j - 1], t);
        assert(states[j - 1].threads.contains_key(moves[j - 1].0));
        lemma_asleep(states, moves, i, j - 1, t, u);
    }
}

/// A call that parks returns when the word says that it need not park any more: no wakeup is lost. From then
/// on it performs less than two operations without returning; and as long as it sleeps, some thread `u`
/// is about to wake it with the next operation that it performs, and has not performed it. So the call
/// has returned when `u` has gone on and the thread itself has performed two operations.
pub proof fn law_park_returns(
    states: Seq<System>,
    moves: Seq<(int, usize)>,
    i: int,
    j: int,
    t: int,
) -> (u: int)
    requires
        is_run(states, moves),
        0 <= i <= j < states.len(),
        parks_in_vain(states, i, j, t),
    ensures
        own_steps(moves, i, j, t) < 2,
        states[j].threads[t] is Asleep ==> is_waking(states[i], u) && own_steps(moves, i, j, u) == 0,
{
    lemma_rank(states, moves, i, j, t);
    lemma_sound(states, moves, i);
    assert(still_parks(states[i], t));
    let u = choose|u: int| is_waking(states[i], u);
    if states[j].threads[t] is Asleep {
        lemma_asleep(states, moves, i, j, t, u);
    }
    u
}

proof fn lemma_sound(states: Seq<System>, moves: Seq<(int, usize)>, i: int)
    requires
        is_run(states, moves),
        0 <= i < states.len(),
    ensures
        sound(states[i]),
    decreases i,
{
    if i > 0 {
        lemma_sound(states, moves, i - 1);
        lemma_step(states[i - 1], moves[i - 1].0, moves[i - 1].1);
    }
}

/// The operation on the word that a thread performs next, if it is one.
pub open spec fn next_operation(thread: Thread) -> Option<Operation> {
    match thread {
        Thread::Parking(action) => park_operation(action),
        Thread::Asleep => None,
        Thread::Unparking { action, .. } => unpark_operation(action),
    }
}

/// The word changes by the operations that threads perform on it, and by nothing else: each step leaves there
/// what the operation leaves that [`perform_park`](super::perform_park) or
/// [`perform_unpark`](super::perform_unpark) performs for the thread.
pub proof fn law_word_changes_by_operation(
    states: Seq<System>,
    moves: Seq<(int, usize)>,
    i: int,
)
    requires
        is_run(states, moves),
        0 <= i < moves.len(),
    ensures
        match next_operation(states[i].threads[moves[i].0]) {
            Some(operation) => states[i + 1].word == leaves(operation, states[i].word),
            None => states[i + 1].word == states[i].word,
        },
{
    lemma_sound(states, moves, i);
    assert(states[i].threads.contains_key(moves[i].0));
}

/// A call that unparks sets the word to the value that it was given. A call that has got further than its
/// first operation has done so, in step `k`, and has performed no other operation on the word since.
pub proof fn law_unpark_has_set_word(
    states: Seq<System>,
    moves: Seq<(int, usize)>,
    i: int,
    t: int,
) -> (k: int)
    requires
        is_run(states, moves),
        0 <= i < states.len(),
        states[i].threads.contains_key(t),
        states[i].threads[t] is Unparking,
        next_operation(states[i].threads[t]) is None,
    ensures
        0 <= k < i,
        moves[k].0 == t,
        states[k + 1].word == states[i].threads[t]->new,
        forall|m: int|
            k < m <= i ==> (#[trigger] states[m]).threads[t] is Unparking && next_operation(
                states[m].threads[t],
            ) is None && states[m].threads[t]->new == states[i].threads[t]->new,
    decreases i,
{
    if i == 0 {
        assert(states[0].threads.contains_key(t));
        states[0].futex.law_unpark_sets_word(UnparkEvent::Start, states[0].threads[t]->new);
        0
    } else {
        lemma_sound(states, moves, i - 1);
        let s = states[i - 1];
        assert(s.threads.contains_key(moves[i - 1].0));
        if moves[i - 1].0 == t && next_operation(s.threads[t]) is Some {
            i - 1
        } else {
            law_unpark_has_set_word(states, moves, i - 1, t)
        }
    }
}

/// A thread that should be parked by the word that it has read goes to sleep, if the word is still the same.
pub proof fn law_sleeps_while_unchanged(futex: AddressFutex, word: usize)
    ensures
        futex.park_next(ParkEvent::Loaded(word), true).1 matches ParkAction::Wait(wait) && sleeps_on(
            wait,
            word,
        ),
{
}

} // verus!
