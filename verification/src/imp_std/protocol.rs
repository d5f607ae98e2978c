//! Any number of threads that follow [`Initializer`](super::Initializer) on one cell.
//!
//! [`System`] is the memory that the threads share together with how far each thread has come.
//! Every step is one operation of one thread, in any order of threads. An operation is atomic and
//! all threads see all operations in one order; nothing is said about weaker memory orders.
//!
//! The laws at the end hold in every state that can be reached from the start.

use vstd::prelude::*;

use super::{
    answers, following, is_running, left_by, node_address, on_word, operation, queue_head, settled_word,
    with_head, Action, Event, Phase, COMPLETE, INCOMPLETE, RUNNING,
};
use crate::chain::{
    at, chain, family, lemma_move, lemma_pop, lemma_push, lemma_relink, lemma_rest, lemma_unique, listed,
    stands,
};
use crate::order::{acquires, releases, Order};
use crate::word::{leaves, read_order, write_order};

verus! {

/// The shared memory, and the phase of each thread. A thread is named by the address of its node.
pub struct System<T> {
    /// The state word.
    pub word: usize,
    /// What the cell holds.
    pub slot: Option<T>,
    /// How far each thread has come.
    pub threads: Map<usize, Phase>,
    /// The link in each thread's node.
    pub links: Map<usize, usize>,
    /// The signal in each thread's node.
    pub signals: Map<usize, bool>,
    /// Whether each thread's node holds its thread handle.
    pub handles: Map<usize, bool>,
    /// The threads that were unparked and have not parked since.
    pub tokens: Set<usize>,
}

/// The phase in which a call starts.
pub open spec fn start() -> Phase {
    Phase::Load { order: Order::SeqCst }
}

/// The start: an empty cell, on which every thread is about to call.
pub open spec fn initial<T>(s: System<T>) -> bool {
    &&& s.word == INCOMPLETE
    &&& s.slot is None
    &&& s.links.dom() == s.threads.dom()
    &&& s.signals.dom() == s.threads.dom()
    &&& s.handles.dom() == s.threads.dom()
    &&& forall|t: usize| #[trigger]
        s.threads.contains_key(t) ==> node_address(t) && s.threads[t] == start()
}

/// What the operation of thread `t` gives back in `s`. `outcome` is what the thread's initializer
/// returns, if this is the step in which it runs.
pub open spec fn result<T>(s: System<T>, t: usize, outcome: Option<T>) -> Event {
    match operation(t, s.threads[t]) {
        Action::Load(_) => Event::Word(s.word),
        Action::CompareAndSwap { .. } => Event::Word(s.word),
        Action::Run => Event::Ran(outcome is Some),
        Action::Swap { .. } => Event::Word(s.word),
        Action::Visit { node } => Event::Link(s.links[node]),
        Action::Enqueue { .. } => Event::Word(s.word),
        Action::Check(_) => Event::Flag(s.signals[t]),
        _ => Event::Finished,
    }
}

/// The system after thread `t` has performed its operation. A call that is over is followed by
/// another one.
///
/// An unparked thread's next `Park` returns at once. Another `Park` may return at any time, too.
pub open spec fn after<T>(s: System<T>, t: usize, outcome: Option<T>) -> System<T> {
    let action = operation(t, s.threads[t]);
    System {
        word: match action {
            Action::CompareAndSwap { current, new, .. } => if s.word == current {
                new
            } else {
                s.word
            },
            Action::Enqueue { current, new, .. } => if s.word == current {
                new
            } else {
                s.word
            },
            Action::Swap { new, .. } => new,
            _ => s.word,
        },
        slot: if action is Run && outcome is Some {
            outcome
        } else {
            s.slot
        },
        threads: s.threads.insert(
            t,
            if action is Return {
                start()
            } else {
                following(s.threads[t], result(s, t, outcome))
            },
        ),
        links: match action {
            Action::Enqueue { next, .. } => s.links.insert(t, next),
            _ => s.links,
        },
        signals: match action {
            Action::Enqueue { .. } => s.signals.insert(t, false),
            Action::Signal { node, .. } => s.signals.insert(node, true),
            _ => s.signals,
        },
        handles: match action {
            Action::Enqueue { .. } => s.handles.insert(t, true),
            Action::Visit { node } => s.handles.insert(node, false),
            _ => s.handles,
        },
        tokens: match action {
            Action::Unpark { node } => s.tokens.insert(node),
            Action::Park => s.tokens.remove(t),
            _ => s.tokens,
        },
    }
}

/// A run: the states of a system from the start on, and which thread made each step.
pub open spec fn is_run<T>(states: Seq<System<T>>, moves: Seq<(usize, Option<T>)>) -> bool {
    &&& states.len() == moves.len() + 1
    &&& initial(states[0])
    &&& forall|i: int| 0 <= i < moves.len() ==> states[i].threads.contains_key(
        (#[trigger] moves[i]).0,
    ) && states[i + 1] == after(states[i], moves[i].0, moves[i].1)
}

/// Whether thread `t` has claimed the cell and not yet released it.
pub open spec fn runs<T>(s: System<T>, t: usize) -> bool {
    s.threads.contains_key(t) && (s.threads[t] is Run || s.threads[t] is Settle)
}

/// Whether thread `t` has put its node into the queue and not yet read its signal.
pub open spec fn waits<T>(s: System<T>, t: usize) -> bool {
    s.threads.contains_key(t) && (s.threads[t] is Check || s.threads[t] is Park)
}

/// Whether thread `t` is about to unpark thread `x`.
pub open spec fn unparks<T>(s: System<T>, t: usize, x: usize) -> bool {
    s.threads.contains_key(t) && (s.threads[t] matches Phase::Unpark { node, .. } && node == x)
}

/// Whether a call in this phase has seen the cell filled.
pub open spec fn knows_complete(phase: Phase) -> bool {
    match phase {
        Phase::Visit { success, .. } => success,
        Phase::Signal { success, .. } => success,
        Phase::Unpark { success, .. } => success,
        Phase::Done { success } => success,
        _ => false,
    }
}

/// The first node that a thread in this phase has still to signal, or 0.
pub open spec fn remaining(phase: Phase) -> usize {
    match phase {
        Phase::Visit { node, .. } => node,
        Phase::Signal { node, .. } => node,
        Phase::Unpark { next, .. } => next,
        _ => 0,
    }
}

/// Where the queue in the state word, and what is left of each thread's walk, start.
pub open spec fn heads<T>(s: System<T>) -> Map<Option<usize>, usize> {
    Map::new(
        |home: Option<usize>| home matches Some(t) ==> s.threads.contains_key(t),
        |home: Option<usize>|
            match home {
                None => if is_running(s.word) {
                    queue_head(s.word)
                } else {
                    0
                },
                Some(t) => remaining(s.threads[t]),
            },
    )
}

/// What holds of the state word, the slot and the phases.
pub open spec fn state_sound<T>(s: System<T>) -> bool {
    &&& s.links.dom() == s.threads.dom()
    &&& s.signals.dom() == s.threads.dom()
    &&& s.handles.dom() == s.threads.dom()
    &&& forall|t: usize| #[trigger] s.threads.contains_key(t) ==> node_address(t)
    &&& s.word == INCOMPLETE || s.word == COMPLETE || is_running(s.word)
    &&& is_running(s.word) ==> exists|t: usize| runs(s, t)
    &&& forall|t: usize| #[trigger] runs(s, t) ==> is_running(s.word)
    &&& forall|t: usize, u: usize| #[trigger] runs(s, t) && #[trigger] runs(s, u) ==> t == u
    &&& s.word == INCOMPLETE ==> s.slot is None
    &&& s.word == COMPLETE ==> s.slot is Some
    &&& forall|t: usize| #[trigger]
        runs(s, t) ==> (s.slot is Some <==> s.threads[t] == Phase::Settle { success: true })
    &&& forall|t: usize| #[trigger]
        s.threads.contains_key(t) && knows_complete(s.threads[t]) ==> s.word == COMPLETE
    &&& forall|t: usize| #[trigger]
        s.threads.contains_key(t) ==> (s.threads[t] matches Phase::Enqueue { state } ==> is_running(
            state,
        ))
    &&& forall|t: usize| #[trigger]
        s.threads.contains_key(t) && (s.threads[t] is Visit || s.threads[t] is Signal)
            ==> remaining(s.threads[t]) != 0
    &&& forall|t: usize| #[trigger]
        s.threads.contains_key(t) ==> (s.threads[t] matches Phase::Load { order } ==> acquires(order))
}

/// What holds of the lists of waiting threads.
pub open spec fn lists_sound<T>(s: System<T>, lists: Map<Option<usize>, Seq<usize>>) -> bool {
    &&& family(s.links, heads(s), lists)
    &&& forall|home: Option<usize>, i: int, x: usize| #[trigger]
        stands(lists, home, i, x) ==> {
            &&& waits(s, x)
            &&& !s.signals[x]
            &&& s.handles[x] || (i == 0 && home is Some && s.threads[home->0] is Signal)
        }
    &&& forall|x: usize| #[trigger] waits(s, x) && !s.signals[x] ==> listed(lists, x)
    &&& forall|t: usize| #[trigger]
        s.threads.contains_key(t) ==> (s.threads[t] matches Phase::Signal { node, next, .. }
            ==> next == s.links[node])
    &&& forall|x: usize| #[trigger]
        waits(s, x) && s.threads[x] is Park && s.signals[x] && !s.tokens.contains(x)
            ==> exists|t: usize| unparks(s, t, x)
}

/// What holds in every state.
pub open spec fn sound<T>(s: System<T>) -> bool {
    &&& state_sound(s)
    &&& exists|lists: Map<Option<usize>, Seq<usize>>| lists_sound(s, lists)
}

proof fn lemma_bits(node: usize)
    ensures
        node_address(node) ==> is_running(with_head(node)) && queue_head(with_head(node)) == node,
        is_running(RUNNING),
        queue_head(RUNNING) == 0,
        !is_running(INCOMPLETE),
        !is_running(COMPLETE),
{
    assert(node & 0x3 == 0 ==> (node | 0x1) & 0x3 == 0x1 && (node | 0x1) & !0x3 == node)
        by (bit_vector);
    assert(0x1usize & 0x3 == 0x1 && 0x1usize & !0x3usize == 0 && 0x0usize & 0x3 == 0 && 0x2usize
        & 0x3 == 0x2) by (bit_vector);
}

proof fn lemma_initial<T>(s: System<T>)
    requires
        initial(s),
    ensures
        sound(s),
{
    lemma_bits(0);
    let lists = Map::new(
        |home: Option<usize>| home matches Some(t) ==> s.threads.contains_key(t),
        |home: Option<usize>| Seq::<usize>::empty(),
    );
    assert(lists.dom() =~= heads(s).dom());
    assert(lists_sound(s, lists));
}

proof fn lemma_state_step<T>(s: System<T>, t: usize, outcome: Option<T>)
    requires
        sound(s),
        s.threads.contains_key(t),
    ensures
        state_sound(after(s, t, outcome)),
{
    let s1 = after(s, t, outcome);
    lemma_bits(t);
    assert(s1.threads.dom() =~= s.threads.dom());
    assert(s1.links.dom() =~= s.links.dom());
    let lists = choose|lists: Map<Option<usize>, Seq<usize>>| lists_sound(s, lists);
    let phase = s.threads[t];
    if phase is Visit || phase is Signal {
        lemma_pop(s.links, heads(s), lists, Some(t));
        assert(waits(s, remaining(phase)));
    }
    assert(s1.signals.dom() =~= s.signals.dom());
    assert(s1.handles.dom() =~= s.handles.dom());
    assert forall|u: usize| u != t implies #[trigger] runs(s1, u) == runs(s, u) by {}
    if phase is Run || phase is Settle {
        assert(runs(s, t));
    }
    if is_running(s1.word) {
        if is_running(s.word) {
            let u = choose|u: usize| runs(s, u);
            assert(runs(s1, u));
        } else {
            assert(runs(s1, t));
        }
    }
}

/// A step keeps this: a thread that was signaled and would sleep in `Park` is about to be unparked.
proof fn lemma_signaled<T>(s: System<T>, t: usize, outcome: Option<T>)
    requires
        sound(s),
        s.threads.contains_key(t),
    ensures
        ({
            let s1 = after(s, t, outcome);
            forall|x: usize| #[trigger]
                waits(s1, x) && s1.threads[x] is Park && s1.signals[x] && !s1.tokens.contains(x)
                    ==> exists|u: usize| unparks(s1, u, x)
        }),
{
    let s1 = after(s, t, outcome);
    assert forall|x: usize| #[trigger]
        waits(s1, x) && s1.threads[x] is Park && s1.signals[x] && !s1.tokens.contains(
            x,
        ) implies exists|u: usize| unparks(s1, u, x) by {
        assert(waits(s, x));
        if s.threads[t] matches Phase::Signal { node, .. } && node == x {
            assert(unparks(s1, t, x));
        } else {
            let u = choose|u: usize| unparks(s, u, x);
            assert(unparks(s1, u, x));
        }
    }
}

/// The step does not touch the lists: no list's head, no link, signal or handle of a listed node, and
/// no thread starts or stops waiting.
proof fn lemma_lists_kept<T>(s: System<T>, t: usize, outcome: Option<T>)
    requires
        sound(s),
        s.threads.contains_key(t),
        s.threads[t] is Load || s.threads[t] is Claim || s.threads[t] is Run || s.threads[t] is Check
            || s.threads[t] is Park || s.threads[t] is Unpark || s.threads[t] is Done,
    ensures
        sound(after(s, t, outcome)),
{
    let s1 = after(s, t, outcome);
    lemma_bits(t);
    lemma_state_step(s, t, outcome);
    let lists = choose|lists: Map<Option<usize>, Seq<usize>>| lists_sound(s, lists);
    assert(heads(s1) =~= heads(s));
    lemma_signaled(s, t, outcome);
    assert forall|x: usize| #[trigger] waits(s1, x) && !s1.signals[x] implies listed(lists, x) by {
        assert(waits(s, x));
    }
    assert(lists_sound(s1, lists));
}

proof fn lemma_settle<T>(s: System<T>, t: usize, outcome: Option<T>)
    requires
        sound(s),
        s.threads.contains_key(t),
        s.threads[t] is Settle,
    ensures
        sound(after(s, t, outcome)),
{
    let s1 = after(s, t, outcome);
    lemma_bits(t);
    lemma_state_step(s, t, outcome);
    let lists = choose|lists: Map<Option<usize>, Seq<usize>>| lists_sound(s, lists);
    assert(runs(s, t));
    lemma_move(s.links, heads(s), lists, None, Some(t));
    let lists1 = lists.insert(None, Seq::empty()).insert(Some(t), lists[None]);
    assert(heads(s1) =~= heads(s).insert(None, 0).insert(Some(t), heads(s)[None]));
    assert forall|home: Option<usize>, i: int, x: usize| #[trigger]
        stands(lists1, home, i, x) implies {
        &&& waits(s1, x)
        &&& !s1.signals[x]
        &&& s1.handles[x] || (i == 0 && home is Some && s1.threads[home->0] is Signal)
    } by {
        let from = if home == Some(t) {
            None
        } else {
            home
        };
        assert(stands(lists, from, i, x));
    }
    assert forall|x: usize| #[trigger] waits(s1, x) && !s1.signals[x] implies listed(lists1, x) by {
        assert(waits(s, x));
        let (home, i) = choose|home: Option<usize>, i: int| stands(lists, home, i, x);
        let to = if home is None {
            Some(t)
        } else {
            home
        };
        assert(home != Some(t)) by {
            assert(lists.contains_key(Some(t)));
            if lists[Some(t)].len() > 0 {
                assert(stands(lists, Some(t), 0, lists[Some(t)][0]));
            }
        }
        assert(stands(lists1, to, i, x));
    }
    lemma_signaled(s, t, outcome);
    assert(lists_sound(s1, lists1));
}

proof fn lemma_visit<T>(s: System<T>, t: usize, outcome: Option<T>)
    requires
        sound(s),
        s.threads.contains_key(t),
        s.threads[t] is Visit,
    ensures
        s.handles[remaining(s.threads[t])],
        sound(after(s, t, outcome)),
{
    let s1 = after(s, t, outcome);
    lemma_state_step(s, t, outcome);
    let lists = choose|lists: Map<Option<usize>, Seq<usize>>| lists_sound(s, lists);
    let node = remaining(s.threads[t]);
    lemma_pop(s.links, heads(s), lists, Some(t));
    assert(heads(s1) =~= heads(s));
    assert forall|home: Option<usize>, i: int, x: usize| #[trigger]
        stands(lists, home, i, x) implies {
        &&& waits(s1, x)
        &&& !s1.signals[x]
        &&& s1.handles[x] || (i == 0 && home is Some && s1.threads[home->0] is Signal)
    } by {}
    lemma_signaled(s, t, outcome);
    assert forall|x: usize| #[trigger] waits(s1, x) && !s1.signals[x] implies listed(lists, x) by {
        assert(waits(s, x));
    }
    assert(lists_sound(s1, lists));
}

proof fn lemma_signal<T>(s: System<T>, t: usize, outcome: Option<T>)
    requires
        sound(s),
        s.threads.contains_key(t),
        s.threads[t] is Signal,
    ensures
        sound(after(s, t, outcome)),
{
    let s1 = after(s, t, outcome);
    lemma_state_step(s, t, outcome);
    let lists = choose|lists: Map<Option<usize>, Seq<usize>>| lists_sound(s, lists);
    let node = remaining(s.threads[t]);
    lemma_pop(s.links, heads(s), lists, Some(t));
    let lists1 = lists.insert(Some(t), lists[Some(t)].drop_first());
    assert(heads(s1) =~= heads(s).insert(Some(t), s.links[node]));
    assert forall|home: Option<usize>, i: int, x: usize| #[trigger]
        stands(lists1, home, i, x) implies {
        &&& waits(s1, x)
        &&& !s1.signals[x]
        &&& s1.handles[x] || (i == 0 && home is Some && s1.threads[home->0] is Signal)
    } by {
        let j = if home == Some(t) {
            i + 1
        } else {
            i
        };
        assert(stands(lists, home, j, x));
    }
    assert forall|x: usize| #[trigger] waits(s1, x) && !s1.signals[x] implies listed(lists1, x) by {
        assert(waits(s, x));
        let (home, i) = choose|home: Option<usize>, i: int| stands(lists, home, i, x);
        let j = if home == Some(t) {
            i - 1
        } else {
            i
        };
        assert(stands(lists1, home, j, x));
    }
    lemma_signaled(s, t, outcome);
    assert(lists_sound(s1, lists1));
}

proof fn lemma_enqueue<T>(s: System<T>, t: usize, outcome: Option<T>)
    requires
        sound(s),
        s.threads.contains_key(t),
        s.threads[t] is Enqueue,
    ensures
        sound(after(s, t, outcome)),
{
    let s1 = after(s, t, outcome);
    lemma_bits(t);
    lemma_state_step(s, t, outcome);
    let lists = choose|lists: Map<Option<usize>, Seq<usize>>| lists_sound(s, lists);
    assert(!listed(lists, t)) by {
        if listed(lists, t) {
            let (home, i) = choose|home: Option<usize>, i: int| stands(lists, home, i, t);
            assert(stands(lists, home, i, t));
        }
    }
    lemma_signaled(s, t, outcome);
    assert forall|u: usize| #[trigger]
        s1.threads.contains_key(u) implies (s1.threads[u] matches Phase::Signal { node, next, .. }
        ==> next == s1.links[node]) by {
        if s.threads.contains_key(u) && s.threads[u] is Signal {
            lemma_pop(s.links, heads(s), lists, Some(u));
        }
    }
    let state = s.threads[t]->Enqueue_state;
    if s.word == state {
        lemma_push(s.links, heads(s), lists, None, t);
        let lists1 = lists.insert(None, seq![t] + lists[None]);
        assert(heads(s1) =~= heads(s).insert(None, t));
        assert forall|home: Option<usize>, i: int, x: usize| #[trigger]
            stands(lists1, home, i, x) implies {
            &&& waits(s1, x)
            &&& !s1.signals[x]
            &&& s1.handles[x] || (i == 0 && home is Some && s1.threads[home->0] is Signal)
        } by {
            if home is None && i > 0 {
                assert(stands(lists, home, i - 1, x));
            } else if home is Some {
                assert(stands(lists, home, i, x));
            }
        }
        assert forall|x: usize| #[trigger] waits(s1, x) && !s1.signals[x] implies listed(
            lists1,
            x,
        ) by {
            if x == t {
                assert(stands(lists1, None, 0, t));
            } else {
                assert(waits(s, x));
                let (home, i) = choose|home: Option<usize>, i: int| stands(lists, home, i, x);
                let j = if home is None {
                    i + 1
                } else {
                    i
                };
                assert(stands(lists1, home, j, x));
            }
        }
        assert(lists_sound(s1, lists1));
    } else {
        lemma_relink(s.links, heads(s), lists, t, queue_head(state));
        assert(heads(s1) =~= heads(s));
        assert forall|x: usize| #[trigger] waits(s1, x) && !s1.signals[x] implies listed(
            lists,
            x,
        ) by {
            assert(waits(s, x));
        }
        assert(lists_sound(s1, lists));
    }
}

/// Every step keeps the system sound.
pub proof fn lemma_step<T>(s: System<T>, t: usize, outcome: Option<T>)
    requires
        sound(s),
        s.threads.contains_key(t),
    ensures
        sound(after(s, t, outcome)),
{
    match s.threads[t] {
        Phase::Settle { .. } => lemma_settle(s, t, outcome),
        Phase::Visit { .. } => lemma_visit(s, t, outcome),
        Phase::Signal { .. } => lemma_signal(s, t, outcome),
        Phase::Enqueue { .. } => lemma_enqueue(s, t, outcome),
        _ => lemma_lists_kept(s, t, outcome),
    }
}

/// Every state of a run is sound.
pub proof fn law_always_sound<T>(states: Seq<System<T>>, moves: Seq<(usize, Option<T>)>, i: int)
    requires
        is_run(states, moves),
        0 <= i < states.len(),
    ensures
        sound(states[i]),
    decreases i,
{
    if i == 0 {
        lemma_initial(states[0]);
    } else {
        law_always_sound(states, moves, i - 1);
        let (t, outcome) = moves[i - 1];
        lemma_step(states[i - 1], t, outcome);
    }
}

/// No two threads run their initializers at the same time.
pub proof fn law_one_initializer<T>(
    states: Seq<System<T>>,
    moves: Seq<(usize, Option<T>)>,
    i: int,
    t: usize,
    u: usize,
)
    requires
        is_run(states, moves),
        0 <= i < states.len(),
        runs(states[i], t),
        runs(states[i], u),
    ensures
        t == u,
        is_running(states[i].word),
{
    law_always_sound(states, moves, i);
}

/// A filled cell keeps its value: it is written once, and no initializer runs after that.
pub proof fn law_written_once<T>(
    states: Seq<System<T>>,
    moves: Seq<(usize, Option<T>)>,
    i: int,
    j: int,
)
    requires
        is_run(states, moves),
        0 <= i <= j < states.len(),
        states[i].slot is Some,
    ensures
        states[j].slot == states[i].slot,
        forall|t: usize| #[trigger]
            states[j].threads.contains_key(t) ==> !(states[j].threads[t] is Run),
    decreases j - i,
{
    law_always_sound(states, moves, j);
    if i < j {
        law_written_once(states, moves, i, j - 1);
        assert(states[j - 1].threads.contains_key(moves[j - 1].0));
    }
    assert forall|t: usize| #[trigger] states[j].threads.contains_key(t) implies !(
    states[j].threads[t] is Run) by {
        if states[j].threads[t] is Run {
            assert(runs(states[j], t));
        }
    }
}

/// A completed cell stays completed: the word never goes back to `INCOMPLETE` after a successful
/// write.
pub proof fn law_complete_is_final<T>(
    states: Seq<System<T>>,
    moves: Seq<(usize, Option<T>)>,
    i: int,
    j: int,
)
    requires
        is_run(states, moves),
        0 <= i <= j < states.len(),
        states[i].word == COMPLETE,
    ensures
        states[j].word == COMPLETE,
        states[j].slot is Some,
        states[j].slot == states[i].slot,
    decreases j - i,
{
    law_always_sound(states, moves, i);
    law_always_sound(states, moves, j);
    law_written_once(states, moves, i, j);
    lemma_bits(0);
    if i < j {
        law_complete_is_final(states, moves, i, j - 1);
        law_always_sound(states, moves, j - 1);
        let (t, outcome) = moves[j - 1];
        if states[j - 1].threads[t] is Settle {
            assert(runs(states[j - 1], t));
        }
    }
}

/// A call that returns `true` leaves a filled cell behind.
pub proof fn law_success_means_filled<T>(
    states: Seq<System<T>>,
    moves: Seq<(usize, Option<T>)>,
    i: int,
    t: usize,
)
    requires
        is_run(states, moves),
        0 <= i < states.len(),
        states[i].threads.contains_key(t),
        states[i].threads[t] == (Phase::Done { success: true }),
    ensures
        states[i].word == COMPLETE,
        states[i].slot is Some,
{
    law_always_sound(states, moves, i);
}

/// Whether a call in this phase has seen its own initializer fail.
pub open spec fn knows_failure(phase: Phase) -> bool {
    match phase {
        Phase::Settle { success } => !success,
        Phase::Visit { success, .. } => !success,
        Phase::Signal { success, .. } => !success,
        Phase::Unpark { success, .. } => !success,
        Phase::Done { success } => !success,
        _ => false,
    }
}

/// A call that returns `false` has run its own initializer, and that one failed: the failure came
/// at some step `k` of the same call.
pub proof fn law_failure_is_own<T>(
    states: Seq<System<T>>,
    moves: Seq<(usize, Option<T>)>,
    i: int,
    t: usize,
) -> (k: int)
    requires
        is_run(states, moves),
        0 <= i < states.len(),
        states[i].threads.contains_key(t),
        knows_failure(states[i].threads[t]),
    ensures
        0 <= k < i,
        states[k].threads[t] is Run,
        moves[k] == (t, None::<T>),
        forall|m: int|
            k < m <= i ==> states[m].threads.contains_key(t) && knows_failure(
                (#[trigger] states[m]).threads[t],
            ),
    decreases i,
{
    assert(i > 0);
    let (u, outcome) = moves[i - 1];
    if u == t && states[i - 1].threads[t] is Run {
        i - 1
    } else {
        assert(states[i - 1].threads.contains_key(t));
        law_failure_is_own(states, moves, i - 1, t)
    }
}

/// A failed initializer leaves the cell as if it had never run: the next call may try again.
pub proof fn law_failure_reopens<T>(
    states: Seq<System<T>>,
    moves: Seq<(usize, Option<T>)>,
    i: int,
)
    requires
        is_run(states, moves),
        0 <= i < moves.len(),
        states[i].threads[moves[i].0] == (Phase::Settle { success: false }),
    ensures
        states[i + 1].word == INCOMPLETE,
        states[i + 1].slot is None,
{
    law_always_sound(states, moves, i);
    law_always_sound(states, moves, i + 1);
}

/// The results of the operations always fit: the final exchange finds a running word, and a node
/// that is visited holds its thread handle.
pub proof fn law_results_fit<T>(states: Seq<System<T>>, moves: Seq<(usize, Option<T>)>, i: int)
    requires
        is_run(states, moves),
        0 <= i < moves.len(),
    ensures
        ({
            let (t, outcome) = moves[i];
            let phase = states[i].threads[t];
            &&& phase is Done || answers(phase, result(states[i], t, outcome))
            &&& phase matches Phase::Visit { node, .. } ==> states[i].handles.contains_key(node)
                && states[i].handles[node]
        }),
{
    law_always_sound(states, moves, i);
    let (t, outcome) = moves[i];
    let s = states[i];
    assert(s.threads.contains_key(t));
    if s.threads[t] is Settle {
        assert(runs(s, t));
    }
    if s.threads[t] is Visit {
        lemma_visit(s, t, outcome);
        let lists = choose|lists: Map<Option<usize>, Seq<usize>>| lists_sound(s, lists);
        lemma_pop(s.links, heads(s), lists, Some(t));
    }
}

/// Whether thread `t` has still to signal thread `x`: `x` stands in what is left of its walk.
pub open spec fn will_signal<T>(s: System<T>, t: usize, x: usize) -> bool {
    &&& s.threads.contains_key(t)
    &&& exists|list: Seq<usize>| #[trigger]
        chain(s.links, remaining(s.threads[t]), list) && list.contains(x)
}

/// Whether thread `x` stands in the queue of the state word.
pub open spec fn is_queued<T>(s: System<T>, x: usize) -> bool {
    &&& is_running(s.word)
    &&& exists|list: Seq<usize>| #[trigger]
        chain(s.links, queue_head(s.word), list) && list.contains(x)
}

/// No waiting thread is forgotten. One that was not signaled stands in the queue while some thread
/// runs its initializer, or is still to be signaled by a thread that walks the queue. One that was
/// signaled and would sleep in `Park` is about to be unparked.
pub proof fn law_no_lost_waiter<T>(
    states: Seq<System<T>>,
    moves: Seq<(usize, Option<T>)>,
    i: int,
    x: usize,
)
    requires
        is_run(states, moves),
        0 <= i < states.len(),
        waits(states[i], x),
    ensures
        !states[i].signals[x] ==> {
            ||| is_queued(states[i], x) && exists|t: usize| runs(states[i], t)
            ||| exists|t: usize| will_signal(states[i], t, x)
        },
        states[i].signals[x] && states[i].threads[x] is Park && !states[i].tokens.contains(x)
            ==> exists|t: usize| unparks(states[i], t, x),
{
    law_always_sound(states, moves, i);
    let s = states[i];
    let lists = choose|lists: Map<Option<usize>, Seq<usize>>| lists_sound(s, lists);
    if !s.signals[x] {
        let (home, j) = choose|home: Option<usize>, j: int| stands(lists, home, j, x);
        assert(lists.contains_key(home));
        assert(lists[home].contains(x));
        match home {
            None => {
                if !is_running(s.word) {
                    assert(stands(lists, home, 0, lists[home][0]));
                }
                assert(is_queued(s, x));
            },
            Some(t) => {
                assert(heads(s).contains_key(home));
                assert(chain(s.links, remaining(s.threads[t]), lists[home]));
                assert(will_signal(s, t, x));
            },
        }
    }
}

/// A node that is visited or signaled belongs to a thread that still waits: it has not read its signal,
/// so that the node is still there. A node that was signaled is not touched again.
pub proof fn law_nodes_alive<T>(
    states: Seq<System<T>>,
    moves: Seq<(usize, Option<T>)>,
    i: int,
    t: usize,
)
    requires
        is_run(states, moves),
        0 <= i < states.len(),
        states[i].threads.contains_key(t),
        remaining(states[i].threads[t]) != 0,
    ensures
        waits(states[i], remaining(states[i].threads[t])),
        !states[i].signals[remaining(states[i].threads[t])],
{
    law_always_sound(states, moves, i);
    let s = states[i];
    let lists = choose|lists: Map<Option<usize>, Seq<usize>>| lists_sound(s, lists);
    lemma_pop(s.links, heads(s), lists, Some(t));
}

/// When no thread runs its initializer and none walks a queue, every waiting thread was signaled.
pub proof fn law_all_signaled<T>(
    states: Seq<System<T>>,
    moves: Seq<(usize, Option<T>)>,
    i: int,
    x: usize,
)
    requires
        is_run(states, moves),
        0 <= i < states.len(),
        waits(states[i], x),
        forall|t: usize| #[trigger]
            states[i].threads.contains_key(t) ==> !runs(states[i], t) && remaining(
                states[i].threads[t],
            ) == 0,
    ensures
        states[i].signals[x],
{
    law_always_sound(states, moves, i);
    let s = states[i];
    let lists = choose|lists: Map<Option<usize>, Seq<usize>>| lists_sound(s, lists);
    if !s.signals[x] {
        let (home, j) = choose|home: Option<usize>, j: int| stands(lists, home, j, x);
        assert(lists.contains_key(home));
        assert(heads(s).contains_key(home));
        assert(stands(lists, home, 0, lists[home][0]));
        if is_running(s.word) {
            let t = choose|t: usize| runs(s, t);
            assert(s.threads.contains_key(t));
        }
    }
}

/// The queue is in order of arrival, the newest first: a thread that enqueues itself goes in front.
/// The thread that settles the cell takes the whole queue over, and signals it from the front.
pub proof fn law_newest_first<T>(
    states: Seq<System<T>>,
    moves: Seq<(usize, Option<T>)>,
    i: int,
    list: Seq<usize>,
)
    requires
        is_run(states, moves),
        0 <= i < moves.len(),
    ensures
        ({
            let t = moves[i].0;
            let phase = states[i].threads[t];
            let next = states[i + 1].threads[t];
            let links = states[i].links;
            let links1 = states[i + 1].links;
            &&& phase == (Phase::Enqueue { state: states[i].word }) && chain(
                links,
                queue_head(states[i].word),
                list,
            ) ==> chain(
                links1,
                queue_head(states[i + 1].word),
                seq![t] + list,
            )
            &&& phase is Settle && chain(links, queue_head(states[i].word), list) ==> chain(
                links1,
                remaining(next),
                list,
            )
            &&& phase is Signal && chain(links, remaining(phase), list) ==> list.len() > 0
                && states[i + 1].signals[list[0]] && chain(
                links1,
                remaining(next),
                list.drop_first(),
            )
        }),
{
    law_always_sound(states, moves, i);
    let s = states[i];
    let s1 = states[i + 1];
    let (t, outcome) = moves[i];
    assert(s.threads.contains_key(t));
    lemma_bits(t);
    let phase = s.threads[t];
    let lists = choose|lists: Map<Option<usize>, Seq<usize>>| lists_sound(s, lists);
    if phase == (Phase::Enqueue { state: s.word }) && chain(s.links, queue_head(s.word), list) {
        assert(lists.contains_key(None));
        lemma_unique(s.links, queue_head(s.word), list, lists[None]);
        let longer = seq![t] + list;
        assert forall|k: int| 0 <= k < longer.len() implies #[trigger] longer[k] != 0
            && s1.links[longer[k]] == at(longer, k + 1) by {
            if k > 0 {
                assert(longer[k] == list[k - 1]);
                assert(stands(lists, None, k - 1, list[k - 1]));
            }
        }
    }
    if phase is Signal && chain(s.links, remaining(phase), list) {
        lemma_rest(s.links, list);
    }
}

/// Whether a call in this phase has neither run its initializer nor come to its end.
pub open spec fn is_pending(phase: Phase) -> bool {
    phase is Load || phase is Claim || phase is Enqueue || phase is Check || phase is Park
}

/// As long as a thread runs its initializer, the calls of other threads wait: they neither end nor run
/// theirs.
pub proof fn law_others_wait<T>(
    states: Seq<System<T>>,
    moves: Seq<(usize, Option<T>)>,
    i: int,
    j: int,
    t: usize,
    u: usize,
)
    requires
        is_run(states, moves),
        0 <= i <= j < states.len(),
        t != u,
        states[i].threads.contains_key(u),
        is_pending(states[i].threads[u]),
        forall|k: int| i <= k <= j ==> #[trigger] runs(states[k], t),
    ensures
        states[j].threads.contains_key(u),
        is_pending(states[j].threads[u]),
    decreases j - i,
{
    if i < j {
        law_others_wait(states, moves, i, j - 1, t, u);
        law_always_sound(states, moves, j - 1);
        lemma_bits(t);
        assert(runs(states[j - 1], t));
        assert(states[j - 1].threads.contains_key(moves[j - 1].0));
    }
}

/// A call that waits while an initializer fills the cell succeeds without running its own: from then on
/// until it is over, the only other thing that can become of it is its success.
pub proof fn law_filled_for_waiters<T>(
    states: Seq<System<T>>,
    moves: Seq<(usize, Option<T>)>,
    i: int,
    j: int,
    u: usize,
)
    requires
        is_run(states, moves),
        0 <= i <= j < states.len(),
        states[i].slot is Some,
        states[i].threads.contains_key(u),
        is_pending(states[i].threads[u]),
        forall|k: int| i <= k < j ==> !((#[trigger] states[k]).threads[u] is Done),
    ensures
        states[j].threads.contains_key(u),
        is_pending(states[j].threads[u]) || states[j].threads[u] == (Phase::Done { success: true }),
        states[j].slot == states[i].slot,
    decreases j - i,
{
    if i < j {
        law_filled_for_waiters(states, moves, i, j - 1, u);
        law_written_once(states, moves, i, j);
        law_always_sound(states, moves, j - 1);
        lemma_bits(u);
        assert(!(states[j - 1].threads[u] is Done));
        assert(states[j - 1].threads.contains_key(moves[j - 1].0));
    }
}

/// The initializer's success fills the cell with the next operation of its thread.
pub proof fn law_success_completes<T>(
    states: Seq<System<T>>,
    moves: Seq<(usize, Option<T>)>,
    i: int,
)
    requires
        is_run(states, moves),
        0 <= i < moves.len(),
        states[i].threads[moves[i].0] == (Phase::Settle { success: true }),
    ensures
        states[i + 1].word == COMPLETE,
        states[i + 1].slot is Some,
        states[i + 1].slot == states[i].slot,
{
    law_always_sound(states, moves, i);
    law_always_sound(states, moves, i + 1);
    assert(states[i].threads.contains_key(moves[i].0));
}

/// Whether the cell is filled and thread `x` is in a call that has not returned, in each state from `i` to
/// `j`.
pub open spec fn lingers<T>(states: Seq<System<T>>, i: int, j: int, x: usize) -> bool {
    forall|k: int|
        i <= k <= j ==> (#[trigger] states[k]).word == COMPLETE && states[k].threads.contains_key(x)
            && is_pending(states[k].threads[x])
}

/// Whether thread `x` cannot return without another thread: it waits, and was not signaled or would sleep.
pub open spec fn is_blocked<T>(s: System<T>, x: usize) -> bool {
    waits(s, x) && (!s.signals[x] || (s.threads[x] is Park && !s.tokens.contains(x)))
}

/// How many operations thread `t` performs in the steps from `i` to before `j`.
pub open spec fn own_steps<T>(moves: Seq<(usize, Option<T>)>, i: int, j: int, t: usize) -> nat
    decreases j - i,
{
    if j <= i {
        0
    } else {
        own_steps(moves, i, j - 1, t) + if moves[j - 1].0 == t {
            1nat
        } else {
            0
        }
    }
}

/// How many operations a walking thread has to perform until it has signaled and unparked the node at place
/// `k` of what is left of its walk.
pub open spec fn operations_left(phase: Phase, k: int) -> int {
    match phase {
        Phase::Visit { .. } => 3 * k + 3,
        Phase::Signal { .. } => 3 * k + 2,
        _ => 3 * k + 4,
    }
}

/// Whether thread `t` signals and unparks thread `x` within `n` operations: `x` stands in what is left of its
/// walk, or was signaled by it just now.
pub open spec fn is_coming<T>(s: System<T>, t: usize, x: usize, n: int) -> bool {
    &&& s.threads.contains_key(t)
    &&& is_walking(s.threads[t])
    &&& {
        ||| unparks(s, t, x) && s.signals[x] && n == 1
        ||| exists|list: Seq<usize>, k: int|
            0 <= k < list.len() && #[trigger] list[k] == x && #[trigger] chain(
                s.links,
                remaining(s.threads[t]),
                list,
            ) && n == operations_left(s.threads[t], k)
    }
}

/// A step of a thread brings it closer to the thread that it is coming to; a step of another one does not
/// send it back.
proof fn lemma_coming_step<T>(s: System<T>, u: usize, outcome: Option<T>, t: usize, x: usize, n: int)
    requires
        sound(s),
        s.word == COMPLETE,
        s.threads.contains_key(u),
        is_pending(s.threads[x]),
        is_coming(s, t, x, n),
        is_blocked(s, x),
        is_blocked(after(s, u, outcome), x),
    ensures
        ({
            let s1 = after(s, u, outcome);
            if u == t {
                n > 1 && is_coming(s1, t, x, n - 1)
            } else {
                n > 0 && is_coming(s1, t, x, n)
            }
        }),
{
    let s1 = after(s, u, outcome);
    lemma_bits(u);
    if unparks(s, t, x) && s.signals[x] && n == 1 {
    } else {
        let (list, k) = choose|list: Seq<usize>, k: int|
            0 <= k < list.len() && #[trigger] list[k] == x && #[trigger] chain(
                s.links,
                remaining(s.threads[t]),
                list,
            ) && n == operations_left(s.threads[t], k);
        lemma_walk_step(s, u, outcome, t, list);
        assert(list[0] != 0);
        if u == t && s.threads[t] is Signal {
            let rest = list.drop_first();
            if k > 0 {
                assert(rest[k - 1] == x);
                assert(chain(s1.links, remaining(s1.threads[t]), rest));
            } else {
                assert(unparks(s1, t, x));
            }
        } else {
            assert(list[k] == x && chain(s1.links, remaining(s1.threads[t]), list));
        }
    }
}

/// A thread that is not blocked in a filled cell is not blocked later.
proof fn lemma_stays_unblocked<T>(s: System<T>, u: usize, outcome: Option<T>, x: usize)
    requires
        sound(s),
        s.word == COMPLETE,
        s.threads.contains_key(u),
        s.threads.contains_key(x),
        is_pending(s.threads[x]),
        is_blocked(after(s, u, outcome), x),
    ensures
        is_blocked(s, x),
{
    lemma_bits(u);
}

proof fn lemma_coming<T>(
    states: Seq<System<T>>,
    moves: Seq<(usize, Option<T>)>,
    i: int,
    j: int,
    x: usize,
    t: usize,
    n: int,
)
    requires
        is_run(states, moves),
        0 <= i <= j < states.len(),
        lingers(states, i, j, x),
        is_blocked(states[j], x),
        is_blocked(states[i], x) ==> is_coming(states[i], t, x, n),
        n > 0,
    ensures
        is_blocked(states[i], x),
        own_steps(moves, i, j, t) < n,
        is_coming(states[j], t, x, n - own_steps(moves, i, j, t)),
    decreases j - i,
{
    if i < j {
        let (u, outcome) = moves[j - 1];
        law_always_sound(states, moves, j - 1);
        assert(states[j - 1].word == COMPLETE);
        assert(states[j - 1].threads.contains_key(moves[j - 1].0));
        lemma_stays_unblocked(states[j - 1], u, outcome, x);
        lemma_coming(states, moves, i, j - 1, x, t, n);
        lemma_coming_step(
            states[j - 1],
            u,
            outcome,
            t,
            x,
            n - own_steps(moves, i, j - 1, t),
        );
    }
}

/// How many operations of its own a call needs at most to return from a filled cell, once it was signaled.
spec fn rank(phase: Phase) -> nat {
    match phase {
        Phase::Enqueue { .. } | Phase::Check => 2,
        Phase::Park => 3,
        _ => 1,
    }
}

proof fn lemma_rank<T>(
    states: Seq<System<T>>,
    moves: Seq<(usize, Option<T>)>,
    i: int,
    j: int,
    x: usize,
)
    requires
        is_run(states, moves),
        0 <= i <= j < states.len(),
        lingers(states, i, j, x),
        waits(states[i], x) ==> states[i].signals[x],
    ensures
        own_steps(moves, i, j, x) + rank(states[j].threads[x]) <= 3,
        waits(states[j], x) ==> states[j].signals[x],
    decreases j - i,
{
    assert(states[j].word == COMPLETE);
    if i < j {
        lemma_rank(states, moves, i, j - 1, x);
        law_always_sound(states, moves, j - 1);
        lemma_bits(x);
        let s = states[j - 1];
        assert(s.word == COMPLETE);
        assert(s.threads.contains_key(moves[j - 1].0));
        if moves[j - 1].0 == x {
            match s.threads[x] {
                Phase::Load { .. } => assert(states[j].threads[x] is Done),
                Phase::Claim => assert(states[j].threads[x] is Done),
                Phase::Enqueue { state } => {
                    assert(is_running(state));
                    assert(states[j].threads[x] is Load);
                },
                Phase::Check => assert(states[j].threads[x] is Load),
                _ => assert(states[j].threads[x] is Check),
            }
        }
    }
}

/// Every call returns from a filled cell. A call that does not wait, or was signaled, performs less than
/// three operations without returning. As long as a call waits without having been signaled, or sleeps,
/// some thread `t` is on its way to signal and unpark it within `n` operations, and has performed fewer.
/// So the call has returned when `t` has performed these and the thread itself three more.
///
/// A thread that was not signaled may wake up for no reason any number of times; it waits again then.
pub proof fn law_call_returns<T>(
    states: Seq<System<T>>,
    moves: Seq<(usize, Option<T>)>,
    i: int,
    j: int,
    x: usize,
) -> (waker: (usize, int))
    requires
        is_run(states, moves),
        0 <= i <= j < states.len(),
        lingers(states, i, j, x),
    ensures
        (waits(states[i], x) ==> states[i].signals[x]) ==> own_steps(moves, i, j, x) < 3,
        is_blocked(states[j], x) ==> is_coming(states[i], waker.0, x, waker.1) && own_steps(
            moves,
            i,
            j,
            waker.0,
        ) < waker.1,
{
    if waits(states[i], x) ==> states[i].signals[x] {
        lemma_rank(states, moves, i, j, x);
    }
    if is_blocked(states[i], x) {
        let s = states[i];
        law_no_lost_waiter(states, moves, i, x);
        lemma_bits(x);
        assert(states[i].word == COMPLETE);
        let waker = if !s.signals[x] {
            let t = choose|t: usize| will_signal(s, t, x);
            let list = choose|list: Seq<usize>| #[trigger]
                chain(s.links, remaining(s.threads[t]), list) && list.contains(x);
            let k = choose|k: int| 0 <= k < list.len() && list[k] == x;
            assert(list[0] != 0);
            (t, operations_left(s.threads[t], k))
        } else {
            (choose|t: usize| unparks(s, t, x), 1int)
        };
        assert(is_coming(s, waker.0, x, waker.1));
        if is_blocked(states[j], x) {
            lemma_coming(states, moves, i, j, x, waker.0, waker.1);
        }
        waker
    } else {
        if is_blocked(states[j], x) {
            lemma_coming(states, moves, i, j, x, x, 1);
        }
        (x, 1)
    }
}

/// A call that no other thread interferes with. On an empty cell it runs the initializer and settles
/// the cell accordingly; on a filled one it returns without running it. Either way the cell holds
/// afterwards what [`OnceCell::initialize`](super::OnceCell::initialize) leaves in the cell of one owner,
/// and the call succeeds when that one does.
pub proof fn law_uncontended<T>(s: System<T>, t: usize, outcome: Option<T>)
    requires
        sound(s),
        s.threads.contains_key(t),
        s.threads[t] == start(),
    ensures
        s.word == INCOMPLETE ==> {
            let s1 = after(s, t, outcome);
            let s2 = after(s1, t, outcome);
            let s3 = after(s2, t, outcome);
            let s4 = after(s3, t, outcome);
            &&& s1.threads[t] is Claim
            &&& s2.threads[t] is Run
            &&& s3.slot == outcome
            &&& s4.threads[t] == (Phase::Done { success: left_by(s.slot, outcome) is Some })
            &&& s4.word == settled_word(left_by(s.slot, outcome) is Some)
            &&& s4.slot == left_by(s.slot, outcome)
        },
        s.word == COMPLETE ==> {
            let s1 = after(s, t, outcome);
            &&& s1.threads[t] == (Phase::Done { success: left_by(s.slot, outcome) is Some })
            &&& s1.word == settled_word(left_by(s.slot, outcome) is Some)
            &&& s1.slot == left_by(s.slot, outcome)
        },
{
    lemma_bits(t);
}

/// What is left of a thread's walk changes only by its own steps: the first node leaves it when the thread
/// signals it.
proof fn lemma_walk_step<T>(
    s: System<T>,
    u: usize,
    outcome: Option<T>,
    t: usize,
    rest: Seq<usize>,
)
    requires
        sound(s),
        s.threads.contains_key(u),
        s.threads.contains_key(t),
        chain(s.links, remaining(s.threads[t]), rest),
        is_walking(s.threads[t]),
    ensures
        ({
            let s1 = after(s, u, outcome);
            if u == t && s.threads[t] is Signal {
                &&& rest.len() > 0
                &&& remaining(s.threads[t]) == rest[0]
                &&& chain(s1.links, remaining(s1.threads[t]), rest.drop_first())
            } else {
                chain(s1.links, remaining(s1.threads[t]), rest)
            }
        }),
{
    let s1 = after(s, u, outcome);
    let lists = choose|lists: Map<Option<usize>, Seq<usize>>| lists_sound(s, lists);
    assert(lists.contains_key(Some(t)));
    lemma_unique(s.links, remaining(s.threads[t]), rest, lists[Some(t)]);
    assert forall|k: int| 0 <= k < rest.len() implies #[trigger] rest[k] != 0 && s1.links[rest[k]]
        == at(rest, k + 1) by {
        assert(stands(lists, Some(t), k, rest[k]));
        assert(waits(s, rest[k]));
    }
    if u == t && s.threads[t] is Signal {
        assert(rest.len() > 0);
        lemma_rest(s.links, rest);
    }
}

/// Whether a call in this phase walks a queue that it has taken over.
pub open spec fn is_walking(phase: Phase) -> bool {
    phase is Visit || phase is Signal || phase is Unpark
}

/// The nodes that thread `t` signals in the steps between `i` and `j`, one after the other.
pub open spec fn signaled_between<T>(
    states: Seq<System<T>>,
    moves: Seq<(usize, Option<T>)>,
    i: int,
    j: int,
    t: usize,
) -> Seq<usize>
    decreases j - i,
{
    if j <= i + 1 {
        Seq::empty()
    } else {
        let nodes = signaled_between(states, moves, i, j - 1, t);
        match states[j - 1].threads[t] {
            Phase::Signal { node, .. } if moves[j - 1].0 == t => nodes.push(node),
            _ => nodes,
        }
    }
}

/// The nodes whose threads thread `t` unparks in the steps between `i` and `j`, one after the other.
pub open spec fn unparked_between<T>(
    states: Seq<System<T>>,
    moves: Seq<(usize, Option<T>)>,
    i: int,
    j: int,
    t: usize,
) -> Seq<usize>
    decreases j - i,
{
    if j <= i + 1 {
        Seq::empty()
    } else {
        let nodes = unparked_between(states, moves, i, j - 1, t);
        match states[j - 1].threads[t] {
            Phase::Unpark { node, .. } if moves[j - 1].0 == t => nodes.push(node),
            _ => nodes,
        }
    }
}

/// Whether thread `t` walks a queue between the states `i` and `j`.
pub open spec fn keeps_walking<T>(states: Seq<System<T>>, i: int, j: int, t: usize) -> bool {
    forall|k: int| i < k < j ==> is_walking((#[trigger] states[k]).threads[t])
}

/// The node whose thread a walking thread in this phase is about to unpark, if any.
spec fn at_hand(phase: Phase) -> Seq<usize> {
    match phase {
        Phase::Unpark { node, .. } => seq![node],
        _ => Seq::empty(),
    }
}

/// A walking thread has the node that it has signaled at hand until it unparks it.
proof fn lemma_hand_step<T>(s: System<T>, u: usize, outcome: Option<T>, t: usize)
    requires
        sound(s),
        s.threads.contains_key(u),
        s.threads.contains_key(t),
        is_walking(s.threads[t]),
    ensures
        ({
            let hand = at_hand(s.threads[t]);
            let hand1 = at_hand(after(s, u, outcome).threads[t]);
            if u == t {
                match s.threads[t] {
                    Phase::Signal { node, .. } => hand.len() == 0 && hand1 == seq![node] && node
                        == remaining(s.threads[t]),
                    Phase::Unpark { node, .. } => hand == seq![node] && hand1.len() == 0,
                    _ => hand.len() == 0 && hand1.len() == 0,
                }
            } else {
                hand1 == hand
            }
        }),
{
}

/// One more step of a walk: what it has signaled and what is left of it are together what they were before,
/// and what it has signaled is what it has unparked and has at hand.
proof fn lemma_wake_step<T>(
    states: Seq<System<T>>,
    moves: Seq<(usize, Option<T>)>,
    i: int,
    j: int,
    t: usize,
    rest: Seq<usize>,
) -> (rest1: Seq<usize>)
    requires
        is_run(states, moves),
        0 <= i < j - 1,
        j < states.len(),
        states[j - 1].threads.contains_key(t),
        chain(states[j - 1].links, remaining(states[j - 1].threads[t]), rest),
        is_walking(states[j - 1].threads[t]),
        unparked_between(states, moves, i, j - 1, t) + at_hand(states[j - 1].threads[t])
            == signaled_between(states, moves, i, j - 1, t),
    ensures
        states[j].threads.contains_key(t),
        chain(states[j].links, remaining(states[j].threads[t]), rest1),
        signaled_between(states, moves, i, j, t) + rest1 == signaled_between(
            states,
            moves,
            i,
            j - 1,
            t,
        ) + rest,
        unparked_between(states, moves, i, j, t) + at_hand(states[j].threads[t])
            == signaled_between(states, moves, i, j, t),
{
    let s = states[j - 1];
    let (u, outcome) = moves[j - 1];
    law_always_sound(states, moves, j - 1);
    assert(s.threads.contains_key(u));
    lemma_walk_step(s, u, outcome, t, rest);
    lemma_hand_step(s, u, outcome, t);
    let signaled = signaled_between(states, moves, i, j - 1, t);
    let unparked = unparked_between(states, moves, i, j - 1, t);
    let hand = at_hand(s.threads[t]);
    let hand1 = at_hand(states[j].threads[t]);
    if u == t {
        match s.threads[t] {
            Phase::Signal { node, .. } => {
                let rest1 = rest.drop_first();
                assert(signaled.push(node) + rest1 =~= signaled + rest);
                assert(unparked + hand =~= unparked);
                assert(unparked + hand1 =~= signaled.push(node));
                rest1
            },
            Phase::Unpark { node, .. } => {
                assert(unparked.push(node) + hand1 =~= unparked + hand);
                rest
            },
            _ => {
                assert(unparked + hand1 =~= unparked + hand);
                rest
            },
        }
    } else {
        rest
    }
}

proof fn lemma_wakes_all<T>(
    states: Seq<System<T>>,
    moves: Seq<(usize, Option<T>)>,
    i: int,
    j: int,
    list: Seq<usize>,
) -> (rest: Seq<usize>)
    requires
        is_run(states, moves),
        0 <= i < j < states.len(),
        states[i].threads[moves[i].0] is Settle,
        chain(states[i].links, queue_head(states[i].word), list),
        keeps_walking(states, i, j, moves[i].0),
    ensures
        states[j].threads.contains_key(moves[i].0),
        chain(states[j].links, remaining(states[j].threads[moves[i].0]), rest),
        signaled_between(states, moves, i, j, moves[i].0) + rest == list,
        unparked_between(states, moves, i, j, moves[i].0) + at_hand(states[j].threads[moves[i].0])
            == signaled_between(states, moves, i, j, moves[i].0),
    decreases j - i,
{
    let t = moves[i].0;
    if j == i + 1 {
        assert(states[i].threads.contains_key(t));
        law_newest_first(states, moves, i, list);
        assert(signaled_between(states, moves, i, j, t) + list =~= list);
        assert(at_hand(states[j].threads[t]).len() == 0);
        assert(unparked_between(states, moves, i, j, t) + at_hand(states[j].threads[t])
            =~= signaled_between(states, moves, i, j, t));
        list
    } else {
        let rest = lemma_wakes_all(states, moves, i, j - 1, list);
        assert(is_walking(states[j - 1].threads[t]));
        lemma_wake_step(states, moves, i, j, t, rest)
    }
}

/// The thread that settles the cell wakes everybody up: when it has walked the queue, it has signaled and
/// unparked the threads that stood in the queue when it settled the cell, from the first to the last,
/// each of them once.
pub proof fn law_wakes_all<T>(
    states: Seq<System<T>>,
    moves: Seq<(usize, Option<T>)>,
    i: int,
    j: int,
    list: Seq<usize>,
)
    requires
        is_run(states, moves),
        0 <= i < j < states.len(),
        states[i].threads[moves[i].0] is Settle,
        chain(states[i].links, queue_head(states[i].word), list),
        keeps_walking(states, i, j, moves[i].0),
        states[j].threads[moves[i].0] is Done,
    ensures
        signaled_between(states, moves, i, j, moves[i].0) == list,
        unparked_between(states, moves, i, j, moves[i].0) == list,
        list.no_duplicates(),
{
    let t = moves[i].0;
    let s = states[i];
    let rest = lemma_wakes_all(states, moves, i, j, list);
    assert(rest.len() == 0) by {
        if rest.len() > 0 {
            assert(rest[0] != 0);
        }
    }
    assert(signaled_between(states, moves, i, j, t) + rest =~= signaled_between(
        states,
        moves,
        i,
        j,
        t,
    ));
    assert(unparked_between(states, moves, i, j, t) + at_hand(states[j].threads[t])
        =~= unparked_between(states, moves, i, j, t));
    law_always_sound(states, moves, i);
    assert(runs(s, t));
    let lists = choose|lists: Map<Option<usize>, Seq<usize>>| lists_sound(s, lists);
    assert(lists.contains_key(None));
    lemma_unique(s.links, queue_head(s.word), list, lists[None]);
    assert forall|a: int, b: int| 0 <= a < list.len() && 0 <= b < list.len() && a != b implies list[a]
        != list[b] by {
        assert(stands(lists, None, a, list[a]));
        assert(stands(lists, None, b, list[b]));
    }
}

/// The state word changes by the operations that threads perform on it, and by nothing else: each step leaves
/// there what the operation leaves that [`perform`](super::perform) performs for the thread, and the
/// thread learns what the word held before.
pub proof fn law_word_changes_by_operation<T>(s: System<T>, t: usize, outcome: Option<T>)
    requires
        sound(s),
        s.threads.contains_key(t),
    ensures
        match on_word(operation(t, s.threads[t])) {
            Some(operation) => {
                &&& after(s, t, outcome).word == leaves(operation, s.word)
                &&& result(s, t, outcome) == Event::Word(s.word)
            },
            None => after(s, t, outcome).word == s.word,
        },
{
}

/// The operation with which a thread settles the cell after its initializer has succeeded leaves it filled,
/// whatever it finds in the word; after a failure it leaves it empty. It is the last operation of the call
/// on the word: what follows are operations on nodes.
pub proof fn law_settling_is_last<T>(
    states: Seq<System<T>>,
    moves: Seq<(usize, Option<T>)>,
    i: int,
    j: int,
)
    requires
        is_run(states, moves),
        0 <= i < j < states.len(),
        states[i].threads[moves[i].0] is Settle,
        keeps_walking(states, i, j, moves[i].0),
    ensures
        ({
            let t = moves[i].0;
            let filled = states[i].threads[t]->Settle_success;
            &&& on_word(operation(t, states[i].threads[t])) matches Some(operation) && forall|found: usize|
                #[trigger] leaves(operation, found) == if filled {
                    COMPLETE
                } else {
                    INCOMPLETE
                }
            &&& states[j].threads[t] is Done || is_walking(states[j].threads[t])
            &&& on_word(operation(t, states[j].threads[t])) is None
            &&& filled ==> states[j].word == COMPLETE && states[j].slot is Some
        }),
    decreases j - i,
{
    let t = moves[i].0;
    law_always_sound(states, moves, i);
    law_always_sound(states, moves, j - 1);
    assert(states[i].threads.contains_key(t));
    assert(states[j - 1].threads.contains_key(moves[j - 1].0));
    lemma_bits(t);
    if states[i].threads[t]->Settle_success {
        law_success_completes(states, moves, i);
        law_complete_is_final(states, moves, i + 1, j);
    }
    if j > i + 1 {
        law_settling_is_last(states, moves, i, j - 1);
        assert(is_walking(states[j - 1].threads[t]));
    }
}

/// What the initializer wrote is visible to every call that finds the cell filled: the operation that fills
/// the cell releases, and the operation with which a call finds it filled acquires.
pub proof fn law_value_is_visible<T>(states: Seq<System<T>>, moves: Seq<(usize, Option<T>)>, i: int)
    requires
        is_run(states, moves),
        0 <= i < moves.len(),
    ensures
        ({
            let t = moves[i].0;
            let phase = states[i].threads[t];
            let operation = on_word(operation(t, phase));
            &&& phase is Settle ==> releases(write_order(operation->0))
            &&& is_pending(phase) && states[i + 1].threads[t] is Done ==> operation is Some
                && acquires(read_order(operation->0, states[i].word))
        }),
{
    law_always_sound(states, moves, i);
    assert(states[i].threads.contains_key(moves[i].0));
    lemma_bits(moves[i].0);
}

/// What a waiting thread wrote into its node is visible to the thread that walks the queue: putting the node
/// into the queue releases, and taking the queue over acquires. What that thread did to the node is visible
/// to the waiting thread when it has seen its signal: setting the signal releases, and reading it acquires.
pub proof fn law_nodes_are_visible(me: usize, phase: Phase, found: usize)
    ensures
        phase is Enqueue ==> releases(write_order(on_word(operation(me, phase))->0)),
        phase is Settle ==> acquires(read_order(on_word(operation(me, phase))->0, found)),
        operation(me, phase) matches Action::Signal { order, .. } ==> releases(order),
        operation(me, phase) matches Action::Check(order) ==> acquires(order),
        phase is Signal <==> operation(me, phase) is Signal,
        phase is Check <==> operation(me, phase) is Check,
{
}

/// A call that has to wait sleeps: one that has put its node into the queue and finds that it was not signaled
/// parks, and looks again after every wakeup.
pub proof fn law_unsignaled_parks<T>(states: Seq<System<T>>, moves: Seq<(usize, Option<T>)>, i: int)
    requires
        is_run(states, moves),
        0 <= i < moves.len(),
        waits(states[i], moves[i].0),
        !states[i].signals[moves[i].0],
    ensures
        waits(states[i + 1], moves[i].0),
        states[i].threads[moves[i].0] is Check <==> operation(
            moves[i].0,
            states[i + 1].threads[moves[i].0],
        ) is Park,
        states[i].threads[moves[i].0] is Park <==> operation(
            moves[i].0,
            states[i + 1].threads[moves[i].0],
        ) is Check,
{
    assert(states[i].threads.contains_key(moves[i].0));
}

/// A call that finds the cell empty tries to claim it, and one that finds it claimed puts its node into the
/// queue, if the word is still the same.
pub proof fn law_acts_on_what_it_found<T>(s: System<T>, t: usize, outcome: Option<T>)
    requires
        sound(s),
        s.threads.contains_key(t),
        s.threads[t] is Load,
    ensures
        ({
            let s1 = after(s, t, outcome);
            let s2 = after(s1, t, outcome);
            &&& s.word == INCOMPLETE ==> runs(s2, t) && s2.word == RUNNING
            &&& s.word == COMPLETE ==> s1.threads[t] == (Phase::Done { success: true })
            &&& is_running(s.word) ==> waits(s2, t) && queue_head(s2.word) == t && s2.links[t]
                == queue_head(s.word) && !s2.signals[t]
        }),
{
    lemma_bits(t);
}

} // verus!
