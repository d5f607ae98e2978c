//! Any number of threads that call [`OnceCell::initialize`](super::OnceCell::initialize) on one
//! cell, also from within an initializer.
//!
//! [`System`] is the memory that the threads share together with how far each thread has come.
//! Every step is one operation of one thread, in any order of threads. An operation is atomic and
//! all threads see all operations in one order; nothing is said about weaker memory orders.
//!
//! The laws at the end hold in every state that can be reached from the start.

use vstd::prelude::*;

use super::scope::Running;
use super::{
    claim, following, on_state, operation, runs_for, settled_state, Action, Event, OnceCell, Outcome, Phase, COMPLETE, EMPTY,
    RUNNING,
};
use crate::order::{acquires, releases};
use crate::word::{leaves, read_order, write_order, Operation, Word};

verus! {

/// The shared memory, and the calls of each thread. A thread is named by a number that is not 0.
pub struct System<T> {
    /// The state of the cell.
    pub state: usize,
    /// What the cell holds.
    pub slot: Option<T>,
    /// The thread that has the mutex, or 0.
    pub owner: usize,
    /// How often that thread has locked the mutex and not yet unlocked it.
    pub depth: nat,
    /// The calls of each thread: the first comes from outside, each other one from within the
    /// initializer of the one before.
    pub calls: Map<usize, Seq<Phase>>,
}

/// What a thread's initializer does in a step.
pub enum Choice<T> {
    /// It returns a value, or fails or unwinds (`None`).
    Return(Option<T>),
    /// It calls `initialize` on the same cell.
    Call,
}

/// The start: an empty cell, on which every thread is about to call.
pub open spec fn initial<T>(s: System<T>) -> bool {
    &&& s.state == EMPTY
    &&& s.slot is None
    &&& s.owner == 0
    &&& s.depth == 0
    &&& forall|t: usize| #[trigger]
        s.calls.contains_key(t) ==> t != 0 && s.calls[t] == seq![Phase::Probe]
}

/// What the initializer hands over when it ends.
pub open spec fn returned<T>(choice: Choice<T>) -> Option<T> {
    match choice {
        Choice::Return(value) => value,
        Choice::Call => None,
    }
}

/// What comes of the operation of a call in `phase`.
pub open spec fn event<T>(s: System<T>, phase: Phase, choice: Choice<T>) -> Event {
    match operation(phase) {
        Action::Load(_) | Action::CompareAndSwap { .. } => Event::State(s.state),
        Action::Run => Event::Ran(returned(choice) is Some),
        _ => Event::Finished,
    }
}

/// Whether thread `t` can make a step: it can unless it has to wait for the mutex. The mutex can be
/// locked again by the thread that has it.
pub open spec fn enabled<T>(s: System<T>, t: usize) -> bool {
    &&& s.calls.contains_key(t)
    &&& operation(s.calls[t].last()) is Lock ==> s.owner == 0 || s.owner == t
}

/// The system after thread `t` has performed its operation. A call that is over goes back to the
/// initializer that it came from, or is followed by another one.
pub open spec fn after<T>(s: System<T>, t: usize, choice: Choice<T>) -> System<T> {
    let calls = s.calls[t];
    let phase = calls.last();
    let action = operation(phase);
    System {
        state: match action {
            Action::CompareAndSwap { current, new, .. } => if s.state == current {
                new
            } else {
                s.state
            },
            Action::Store { new, .. } => new,
            _ => s.state,
        },
        slot: if action is Run && returned(choice) is Some {
            returned(choice)
        } else {
            s.slot
        },
        owner: match action {
            Action::Lock => t,
            Action::Unlock => if s.depth <= 1 {
                0
            } else {
                s.owner
            },
            _ => s.owner,
        },
        depth: match action {
            Action::Lock => s.depth + 1,
            Action::Unlock => if s.depth <= 1 {
                0
            } else {
                (s.depth - 1) as nat
            },
            _ => s.depth,
        },
        calls: s.calls.insert(
            t,
            if action is Run && choice is Call {
                calls.push(Phase::Probe)
            } else if action is Return {
                if calls.len() > 1 {
                    calls.drop_last()
                } else {
                    seq![Phase::Probe]
                }
            } else {
                calls.drop_last().push(following(phase, event(s, phase, choice)))
            },
        ),
    }
}

/// A run: the states of a system from the start on, and which thread made each step.
pub open spec fn is_run<T>(states: Seq<System<T>>, moves: Seq<(usize, Choice<T>)>) -> bool {
    &&& states.len() == moves.len() + 1
    &&& initial(states[0])
    &&& forall|i: int| 0 <= i < moves.len() ==> enabled(states[i], (#[trigger] moves[i]).0)
        && states[i + 1] == after(states[i], moves[i].0, moves[i].1)
}

/// Whether a call in this phase has locked the mutex and not yet unlocked it.
pub open spec fn holds_mutex(phase: Phase) -> bool {
    phase is Swap || phase is Run || phase is Settle || phase is Unlock
}

/// Whether a call in this phase has claimed the cell and not yet released it.
pub open spec fn claims(phase: Phase) -> bool {
    phase is Run || phase is Settle
}

/// How many of these calls have locked the mutex and not yet unlocked it.
pub open spec fn guards(calls: Seq<Phase>) -> nat
    decreases calls.len(),
{
    if calls.len() == 0 {
        0
    } else {
        guards(calls.drop_last()) + if holds_mutex(calls.last()) {
            1nat
        } else {
            0
        }
    }
}

/// Whether thread `t` has the mutex.
pub open spec fn holds<T>(s: System<T>, t: usize) -> bool {
    s.calls.contains_key(t) && guards(s.calls[t]) > 0
}

/// Whether thread `t` has claimed the cell and not yet released it.
pub open spec fn runs<T>(s: System<T>, t: usize) -> bool {
    s.calls.contains_key(t) && exists|d: int|
        0 <= d < s.calls[t].len() && claims(#[trigger] s.calls[t][d])
}

/// How a call that knows it already will end.
pub open spec fn known_outcome(phase: Phase) -> Option<Outcome> {
    match phase {
        Phase::Unlock { outcome } => Some(outcome),
        Phase::Done { outcome } => Some(outcome),
        _ => None,
    }
}

/// What holds of the calls of a thread: a call from outside does not end as one from within, and a
/// call from within an initializer gets no further than to learn where it came from.
pub open spec fn calls_sound(calls: Seq<Phase>) -> bool {
    &&& 1 <= calls.len() <= 2
    &&& known_outcome(calls[0]) != Some(Outcome::Reentrant)
    &&& calls.len() == 2 ==> calls[0] is Run && match calls[1] {
        Phase::Probe | Phase::Lock | Phase::Swap => true,
        Phase::Unlock { outcome } => outcome is Reentrant,
        Phase::Done { outcome } => outcome is Reentrant,
        _ => false,
    }
}

/// What holds in every state.
pub open spec fn sound<T>(s: System<T>) -> bool {
    &&& forall|t: usize| #[trigger] s.calls.contains_key(t) ==> t != 0 && calls_sound(s.calls[t])
    &&& s.state == EMPTY || s.state == RUNNING || s.state == COMPLETE
    &&& forall|t: usize| #[trigger]
        s.calls.contains_key(t) ==> (s.owner == t <==> guards(s.calls[t]) > 0)
    &&& s.owner != 0 ==> s.calls.contains_key(s.owner) && s.depth == guards(s.calls[s.owner])
    &&& s.owner == 0 ==> s.depth == 0
    &&& s.state == RUNNING ==> s.owner != 0 && claims(s.calls[s.owner][0])
    &&& forall|t: usize| #[trigger]
        s.calls.contains_key(t) && claims(s.calls[t][0]) ==> s.state == RUNNING
    &&& s.state == EMPTY ==> s.slot is None
    &&& s.state == COMPLETE ==> s.slot is Some
    &&& s.state == RUNNING ==> (s.slot is Some <==> s.calls[s.owner][0] == Phase::Settle {
        success: true,
    })
    &&& forall|t: usize| #[trigger]
        s.calls.contains_key(t) && known_outcome(s.calls[t][0]) == Some(Outcome::Ready) ==> s.state
            == COMPLETE
}

/// The guards of the calls of a thread, one by one.
proof fn lemma_guards(calls: Seq<Phase>)
    requires
        calls_sound(calls),
    ensures
        calls.len() == 1 ==> (guards(calls) == if holds_mutex(calls[0]) {
            1nat
        } else {
            0
        }),
        calls.len() == 2 ==> (guards(calls) == if holds_mutex(calls[1]) {
            2nat
        } else {
            1
        }),
{
    reveal_with_fuel(guards, 3);
    assert(calls.drop_last().len() == calls.len() - 1);
    if calls.len() == 2 {
        assert(calls.drop_last() =~= seq![calls[0]]);
        assert(seq![calls[0]].drop_last().len() == 0);
    }
}

/// A thread that has claimed the cell has the mutex.
proof fn lemma_claims<T>(s: System<T>)
    requires
        sound(s),
    ensures
        forall|t: usize| #[trigger]
            s.calls.contains_key(t) && claims(s.calls[t][0]) ==> s.owner == t,
{
    assert forall|t: usize| #[trigger]
        s.calls.contains_key(t) && claims(s.calls[t][0]) implies s.owner == t by {
        lemma_guards(s.calls[t]);
    }
}

/// Every step keeps the system sound.
pub proof fn lemma_step<T>(s: System<T>, t: usize, choice: Choice<T>)
    requires
        sound(s),
        enabled(s, t),
    ensures
        sound(after(s, t, choice)),
{
    let s1 = after(s, t, choice);
    let calls = s.calls[t];
    let calls1 = s1.calls[t];
    assert(s.calls.contains_key(t));
    assert(calls_sound(calls));
    assert(calls1.len() == 1 || calls1.len() == 2);
    assert(calls.len() == 2 ==> calls1[0] == calls[0]);
    lemma_guards(calls);
    assert forall|u: usize| u != t && #[trigger] s1.calls.contains_key(u) implies s.calls.contains_key(
        u,
    ) && s1.calls[u] == s.calls[u] by {}
    lemma_claims(s);
    assert(calls_sound(calls1));
    lemma_guards(calls1);
}

proof fn lemma_initial<T>(s: System<T>)
    requires
        initial(s),
    ensures
        sound(s),
{
    assert forall|t: usize| #[trigger] s.calls.contains_key(t) implies guards(s.calls[t]) == 0 by {
        lemma_guards(s.calls[t]);
    }
}

/// Every state of a run is sound.
pub proof fn law_always_sound<T>(states: Seq<System<T>>, moves: Seq<(usize, Choice<T>)>, i: int)
    requires
        is_run(states, moves),
        0 <= i < states.len(),
    ensures
        sound(states[i]),
    decreases i,
{
    if i == 0 {
        lemma_initial(states[0]);
    } else {
        law_always_sound(states, moves, i - 1);
        let (t, choice) = moves[i - 1];
        lemma_step(states[i - 1], t, choice);
    }
}

/// No two threads have the mutex at the same time.
pub proof fn law_mutual_exclusion<T>(
    states: Seq<System<T>>,
    moves: Seq<(usize, Choice<T>)>,
    i: int,
    t: usize,
    u: usize,
)
    requires
        is_run(states, moves),
        0 <= i < states.len(),
        holds(states[i], t),
        holds(states[i], u),
    ensures
        t == u,
{
    law_always_sound(states, moves, i);
}

/// No two threads run their initializers at the same time, and no thread runs two.
pub proof fn law_one_initializer<T>(
    states: Seq<System<T>>,
    moves: Seq<(usize, Choice<T>)>,
    i: int,
    t: usize,
    u: usize,
)
    requires
        is_run(states, moves),
        0 <= i < states.len(),
        runs(states[i], t),
        runs(states[i], u),
    ensures
        t == u,
        states[i].state == RUNNING,
        forall|d: int|
            0 <= d < states[i].calls[t].len() && claims(#[trigger] states[i].calls[t][d]) ==> d
                == 0,
{
    law_always_sound(states, moves, i);
    lemma_claims(states[i]);
    assert(states[i].calls.contains_key(t) && states[i].calls.contains_key(u));
}

/// A filled cell keeps its value: it is written once, and no initializer runs after that.
pub proof fn law_written_once<T>(
    states: Seq<System<T>>,
    moves: Seq<(usize, Choice<T>)>,
    i: int,
    j: int,
)
    requires
        is_run(states, moves),
        0 <= i <= j < states.len(),
        states[i].slot is Some,
    ensures
        states[j].slot == states[i].slot,
        forall|t: usize| #[trigger]
            states[j].calls.contains_key(t) ==> forall|d: int|
                0 <= d < states[j].calls[t].len() ==> !(#[trigger] states[j].calls[t][d] is Run),
    decreases j - i,
{
    law_always_sound(states, moves, j);
    lemma_claims(states[j]);
    if i < j {
        law_written_once(states, moves, i, j - 1);
        law_always_sound(states, moves, j - 1);
        let (t, choice) = moves[j - 1];
        let s = states[j - 1];
        assert(s.calls.contains_key(t));
        assert(s.calls[t].last() == s.calls[t][s.calls[t].len() - 1]);
    }
}

/// A completed cell stays completed.
pub proof fn law_complete_is_final<T>(
    states: Seq<System<T>>,
    moves: Seq<(usize, Choice<T>)>,
    i: int,
    j: int,
)
    requires
        is_run(states, moves),
        0 <= i <= j < states.len(),
        states[i].state == COMPLETE,
    ensures
        states[j].state == COMPLETE,
        states[j].slot is Some,
        states[j].slot == states[i].slot,
    decreases j - i,
{
    law_always_sound(states, moves, i);
    law_always_sound(states, moves, j);
    law_written_once(states, moves, i, j);
    if i < j {
        law_complete_is_final(states, moves, i, j - 1);
        law_always_sound(states, moves, j - 1);
        let (t, choice) = moves[j - 1];
        let s = states[j - 1];
        assert(s.calls.contains_key(t));
        assert(s.calls[t].last() == s.calls[t][s.calls[t].len() - 1]);
    }
}

/// A call that succeeds leaves a filled cell behind.
pub proof fn law_success_means_filled<T>(
    states: Seq<System<T>>,
    moves: Seq<(usize, Choice<T>)>,
    i: int,
    t: usize,
)
    requires
        is_run(states, moves),
        0 <= i < states.len(),
        states[i].calls.contains_key(t),
        states[i].calls[t].last() == (Phase::Done { outcome: Outcome::Ready }),
    ensures
        states[i].state == COMPLETE,
        states[i].slot is Some,
{
    law_always_sound(states, moves, i);
}

/// A call is told that it is reentrant exactly when it comes from within the initializer that its own
/// thread is running: every call from there ends like this, without waiting for the mutex, and no
/// other call does.
pub proof fn law_reentrant_is_own<T>(
    states: Seq<System<T>>,
    moves: Seq<(usize, Choice<T>)>,
    i: int,
    t: usize,
)
    requires
        is_run(states, moves),
        0 <= i < states.len(),
        states[i].calls.contains_key(t),
        states[i].calls[t].last() is Done,
    ensures
        states[i].calls[t].last()->Done_outcome is Reentrant <==> states[i].calls[t].len() > 1,
        states[i].calls[t].len() > 1 ==> states[i].calls[t][0] is Run && states[i].state == RUNNING,
{
    law_always_sound(states, moves, i);
}

/// A thread that can make no step waits for a mutex that another thread has, and that thread can make
/// one. In particular no thread waits for itself.
pub proof fn law_no_deadlock<T>(
    states: Seq<System<T>>,
    moves: Seq<(usize, Choice<T>)>,
    i: int,
    t: usize,
) -> (u: usize)
    requires
        is_run(states, moves),
        0 <= i < states.len(),
        states[i].calls.contains_key(t),
        !enabled(states[i], t),
    ensures
        u != t,
        holds(states[i], u),
        enabled(states[i], u),
{
    law_always_sound(states, moves, i);
    states[i].owner
}

/// Whether the call from outside of thread `t` has yet to get the mutex.
pub open spec fn waits<T>(s: System<T>, t: usize) -> bool {
    s.calls.contains_key(t) && s.calls[t].len() == 1 && (s.calls[t][0] is Probe || s.calls[t][0] is Lock)
}

/// As long as a thread runs its initializer, the calls of other threads wait: they neither end nor run
/// theirs.
pub proof fn law_others_wait<T>(
    states: Seq<System<T>>,
    moves: Seq<(usize, Choice<T>)>,
    i: int,
    j: int,
    t: usize,
    u: usize,
)
    requires
        is_run(states, moves),
        0 <= i <= j < states.len(),
        t != u,
        waits(states[i], u),
        forall|k: int| i <= k <= j ==> #[trigger] runs(states[k], t),
    ensures
        waits(states[j], u),
    decreases j - i,
{
    if i < j {
        law_others_wait(states, moves, i, j - 1, t, u);
        law_always_sound(states, moves, j - 1);
        lemma_claims(states[j - 1]);
        assert(runs(states[j - 1], t));
        assert(enabled(states[j - 1], moves[j - 1].0));
        assert(states[j].calls[u].len() == 1);
    }
}

/// Whether a call in this phase has seen its own initializer fail.
pub open spec fn knows_failure(phase: Phase) -> bool {
    (phase matches Phase::Settle { success, .. } && !success) || known_outcome(phase) == Some(
        Outcome::Failed,
    )
}

/// A call that fails has run its own initializer, and that one failed: the failure came at some step
/// `k` of the same call.
pub proof fn law_failure_is_own<T>(
    states: Seq<System<T>>,
    moves: Seq<(usize, Choice<T>)>,
    i: int,
    t: usize,
) -> (k: int)
    requires
        is_run(states, moves),
        0 <= i < states.len(),
        states[i].calls.contains_key(t),
        knows_failure(states[i].calls[t].last()),
    ensures
        0 <= k < i,
        states[k].calls[t] == seq![Phase::Run],
        moves[k] == (t, Choice::Return(None::<T>)),
        forall|m: int|
            k < m <= i ==> states[m].calls.contains_key(t) && knows_failure(
                (#[trigger] states[m]).calls[t][0],
            ),
    decreases i,
{
    law_always_sound(states, moves, i);
    assert(i > 0);
    law_always_sound(states, moves, i - 1);
    let (u, choice) = moves[i - 1];
    let s = states[i - 1];
    assert(s.calls.contains_key(t));
    assert(calls_sound(s.calls[t]));
    assert(calls_sound(states[i].calls[t]));
    if u == t && s.calls[t].last() is Run {
        assert(s.calls[t] =~= seq![Phase::Run]);
        i - 1
    } else {
        law_failure_is_own(states, moves, i - 1, t)
    }
}

/// A failed initializer leaves the cell as if it had never run: the next call may try again.
pub proof fn law_failure_reopens<T>(
    states: Seq<System<T>>,
    moves: Seq<(usize, Choice<T>)>,
    i: int,
)
    requires
        is_run(states, moves),
        0 <= i < moves.len(),
        states[i].calls[moves[i].0].last() matches Phase::Settle { success, .. } && !success,
    ensures
        states[i + 1].state == EMPTY,
        states[i + 1].slot is None,
{
    law_always_sound(states, moves, i);
    law_always_sound(states, moves, i + 1);
}

/// Whether the cell is filled and thread `t` is in a call that has not returned, in each state from `i` to
/// `j`.
pub open spec fn lingers<T>(states: Seq<System<T>>, i: int, j: int, t: usize) -> bool {
    forall|k: int|
        i <= k <= j ==> (#[trigger] states[k]).state == COMPLETE && states[k].calls.contains_key(t)
            && !(states[k].calls[t].last() is Done)
}

/// How many operations thread `t` performs in the steps from `i` to before `j`.
pub open spec fn own_steps<T>(moves: Seq<(usize, Choice<T>)>, i: int, j: int, t: usize) -> nat
    decreases j - i,
{
    if j <= i {
        0
    } else {
        own_steps(moves, i, j - 1, t) + if moves[j - 1].0 == t {
            1nat
        } else {
            0
        }
    }
}

/// How many operations a call has still to perform on a filled cell.
pub open spec fn operations_left(phase: Phase) -> nat {
    match phase {
        Phase::Lock => 3,
        Phase::Swap => 2,
        Phase::Done { .. } => 0,
        _ => 1,
    }
}

/// Every call returns from a filled cell: it performs less than three operations without returning. As long as
/// it cannot go on, another thread has the mutex, and gives it back within two operations.
pub proof fn law_call_returns<T>(
    states: Seq<System<T>>,
    moves: Seq<(usize, Choice<T>)>,
    i: int,
    j: int,
    t: usize,
)
    requires
        is_run(states, moves),
        0 <= i <= j < states.len(),
        lingers(states, i, j, t),
    ensures
        own_steps(moves, i, j, t) + operations_left(states[j].calls[t].last()) <= 3,
        own_steps(moves, i, j, t) < 3,
        !enabled(states[j], t) ==> {
            let u = states[j].owner;
            &&& u != t
            &&& holds(states[j], u)
            &&& enabled(states[j], u)
            &&& operations_left(states[j].calls[u].last()) <= 2
        },
    decreases j - i,
{
    let s = states[j];
    law_always_sound(states, moves, j);
    lemma_claims(s);
    assert(s.state == COMPLETE);
    assert(s.calls[t].len() == 1);
    if s.owner != 0 {
        lemma_guards(s.calls[s.owner]);
    }
    if i < j {
        law_call_returns(states, moves, i, j - 1, t);
        law_always_sound(states, moves, j - 1);
        lemma_claims(states[j - 1]);
        assert(states[j - 1].state == COMPLETE);
        assert(states[j - 1].calls[t].len() == 1);
        assert(enabled(states[j - 1], moves[j - 1].0));
    }
}

/// The state changes by the operations that threads perform on it, and by nothing else: each step leaves
/// there what the operation leaves that [`OnceCell::perform`](super::OnceCell::perform) performs for the
/// thread, and the thread learns what the state was before.
pub proof fn law_state_changes_by_operation<T>(s: System<T>, t: usize, choice: Choice<T>)
    requires
        enabled(s, t),
    ensures
        match on_state(operation(s.calls[t].last())) {
            Some(operation) => {
                &&& after(s, t, choice).state == leaves(operation, s.state)
                &&& operation !is Store ==> event(s, s.calls[t].last(), choice) == Event::State(
                    s.state,
                )
            },
            None => after(s, t, choice).state == s.state,
        },
{
}

/// A call gives back what it has taken. A call that is over, like one that has not begun, keeps no guard: its
/// thread has as many as the calls have that it came from. So a thread whose call from outside is over does
/// not have the mutex, and any other thread that waits can have it.
pub proof fn law_calls_give_back<T>(
    states: Seq<System<T>>,
    moves: Seq<(usize, Choice<T>)>,
    i: int,
    t: usize,
)
    requires
        is_run(states, moves),
        0 <= i < states.len(),
        states[i].calls.contains_key(t),
        states[i].calls[t].last() is Done || states[i].calls[t].last() is Probe,
    ensures
        guards(states[i].calls[t]) == guards(states[i].calls[t].drop_last()),
        states[i].calls[t].len() == 1 ==> guards(states[i].calls[t]) == 0 && states[i].owner != t,
        states[i].calls[t].len() == 2 ==> guards(states[i].calls[t]) == 1 && states[i].owner == t
            && states[i].depth == 1,
{
    law_always_sound(states, moves, i);
    lemma_guards(states[i].calls[t]);
    reveal_with_fuel(guards, 3);
    assert(states[i].calls[t].len() == 1 ==> states[i].calls[t].drop_last().len() == 0);
}

/// Each lock of a call is followed by one unlock: the step in which a call locks the mutex adds a guard, the
/// step in which it unlocks it takes one away, and no other step of a call changes how many its thread has.
pub proof fn law_locks_are_matched<T>(
    states: Seq<System<T>>,
    moves: Seq<(usize, Choice<T>)>,
    i: int,
)
    requires
        is_run(states, moves),
        0 <= i < moves.len(),
    ensures
        ({
            let t = moves[i].0;
            let action = operation(states[i].calls[t].last());
            let before = guards(states[i].calls[t]);
            let now = guards(states[i + 1].calls[t]);
            &&& action is Lock ==> now == before + 1
            &&& action is Unlock ==> now == before - 1 && states[i + 1].calls[t].last() is Done
            &&& action !is Lock && action !is Unlock ==> now == before
        }),
{
    let t = moves[i].0;
    law_always_sound(states, moves, i);
    law_always_sound(states, moves, i + 1);
    assert(enabled(states[i], t));
    lemma_guards(states[i].calls[t]);
    lemma_guards(states[i + 1].calls[t]);
}

/// An initializer that unwinds leaves the cell as if it had never run: what the guard stores then, under which
/// it runs, lets the next call win the cell.
pub proof fn law_unwinding_reopens<S>(cell: &OnceCell<S>, running: Running<'_>) where
    for <'b>&'b S: Word<'b>,

    requires
        runs_for(running, cell),
    ensures
        running.reset().atomic() == cell.word(),
        claim(running.reset().value()) is Won,
        forall|found: usize| #[trigger]
            leaves(
                Operation::Store { new: running.reset().value(), order: running.reset().order() },
                found,
            ) == settled_state(false),
{
}

/// What the initializer wrote is visible to every call that finds the cell filled without the mutex: the
/// operation that fills the cell releases, and the one that looks at it acquires.
pub proof fn law_value_is_visible(phase: Phase, found: usize)
    ensures
        phase == (Phase::Settle { success: true }) ==> releases(
            write_order(on_state(operation(phase))->0),
        ),
        phase is Probe ==> acquires(read_order(on_state(operation(phase))->0, found)),
{
}

} // verus!
