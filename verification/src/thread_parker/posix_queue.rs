//! Any number of threads that park on one word with [`QueueFutex`] and unpark each other.
//!
//! Every step is one operation of one thread, in any order of threads. An operation is atomic and
//! all threads see all operations in one order; nothing is said about weaker memory orders. Waiting on
//! a node ends only when the node was unparked.

use vstd::prelude::*;

use super::posix::{law_node_roundtrip, node_address, node_of, with_node, Phase, QueueFutex};
use super::{
    park_operation, public_bits, reserved_bits, unpark_operation, Futex, ParkAction, ParkEvent,
    UnparkAction, UnparkEvent, Wait,
};
use crate::chain::{
    at, chain, family, lemma_move, lemma_pop, lemma_push, lemma_relink, lemma_rest, lemma_unique,
    listed, stands,
};
use crate::word::{leaves, Operation};

verus! {

/// How far a thread has come, and its next operation.
pub enum Thread {
    /// It parks.
    Parking { call: QueueFutex, action: ParkAction },
    /// It sets the word to `new` and unparks all threads.
    Unparking { call: QueueFutex, work: UnparkAction, new: usize },
}

/// The shared memory, and how far each thread has come. A thread is named by the address of its node.
pub struct System {
    /// The word.
    pub word: usize,
    /// The link in each thread's node.
    pub links: Map<usize, usize>,
    /// Whether each thread's node was unparked since it was set up.
    pub unparked: Map<usize, bool>,
    /// How far each thread has come.
    pub threads: Map<usize, Thread>,
    /// What each thread's predicate says of the public bits.
    pub should_park: spec_fn(usize, usize) -> bool,
}

/// A thread that starts a call: one that sets the word to `new`, or one that parks.
pub open spec fn start(me: usize, new: Option<usize>) -> Thread {
    let call = QueueFutex { me, phase: Phase::Idle };
    match new {
        Some(new) => {
            let (call, work) = call.unpark_next(UnparkEvent::Start, new);
            Thread::Unparking { call, work, new }
        },
        None => {
            let (call, action) = call.park_next(ParkEvent::Start, false);
            Thread::Parking { call, action }
        },
    }
}

/// A call that unparks leaves the reserved bits to the parked threads.
pub open spec fn leaves_reserved(new: Option<usize>) -> bool {
    new matches Some(word) ==> reserved_bits(word) == 0
}

/// The start: no thread is parked, and every thread starts a call.
pub open spec fn initial(s: System) -> bool {
    &&& reserved_bits(s.word) == 0
    &&& s.links.dom() == s.threads.dom()
    &&& s.unparked.dom() == s.threads.dom()
    &&& forall|t: usize| #[trigger]
        s.threads.contains_key(t) ==> node_address(t) && exists|new: Option<usize>|
            leaves_reserved(new) && s.threads[t] == #[trigger] start(t, new)
}

/// How a thread that parks goes on when `event` came back.
pub open spec fn parking(s: System, t: usize, call: QueueFutex, event: ParkEvent) -> Thread {
    let parks = call.park_reads(event) matches Some(word) && (s.should_park)(t, public_bits(word));
    let (call, action) = call.park_next(event, parks);
    Thread::Parking { call, action }
}

/// How a thread that unparks goes on when `event` came back.
pub open spec fn unparking(call: QueueFutex, new: usize, event: UnparkEvent) -> Thread {
    let (call, work) = call.unpark_next(event, new);
    Thread::Unparking { call, work, new }
}

/// Whether thread `t` can make a step: it can unless it sleeps.
pub open spec fn enabled(s: System, t: usize) -> bool {
    &&& s.threads.contains_key(t)
    &&& s.threads[t] matches Thread::Parking { action, .. } ==> action is Wait ==> s.unparked[t]
}

/// The system after thread `t` has performed its operation. A call that is over is followed by
/// another one; `again` tells which.
pub open spec fn after(s: System, t: usize, again: Option<usize>) -> System {
    match s.threads[t] {
        Thread::Parking { call, action } => match action {
            ParkAction::Load(_) => System {
                threads: s.threads.insert(t, parking(s, t, call, ParkEvent::Loaded(s.word))),
                ..s
            },
            ParkAction::Enqueue { link, current, new, .. } => System {
                word: if s.word == current {
                    new
                } else {
                    s.word
                },
                links: s.links.insert(t, link),
                unparked: s.unparked.insert(t, false),
                threads: s.threads.insert(t, parking(s, t, call, ParkEvent::Swapped(s.word))),
                ..s
            },
            ParkAction::Wait(_) => System {
                threads: s.threads.insert(t, parking(s, t, call, ParkEvent::Woken)),
                ..s
            },
            _ => System { threads: s.threads.insert(t, start(t, again)), ..s },
        },
        Thread::Unparking { call, work, new } => match work {
            UnparkAction::Swap { new: word, .. } => System {
                word,
                threads: s.threads.insert(t, unparking(call, new, UnparkEvent::Swapped(s.word))),
                ..s
            },
            UnparkAction::Visit { node } => System {
                threads: s.threads.insert(
                    t,
                    unparking(call, new, UnparkEvent::Link(s.links[node])),
                ),
                ..s
            },
            UnparkAction::Unpark { node } => System {
                unparked: s.unparked.insert(node, true),
                threads: s.threads.insert(t, unparking(call, new, UnparkEvent::Finished)),
                ..s
            },
            _ => System { threads: s.threads.insert(t, start(t, again)), ..s },
        },
    }
}

/// A run: the states of a system from the start on, and which thread made each step.
pub open spec fn is_run(states: Seq<System>, moves: Seq<(usize, Option<usize>)>) -> bool {
    &&& states.len() == moves.len() + 1
    &&& initial(states[0])
    &&& forall|i: int| 0 <= i < moves.len() ==> {
        &&& enabled(states[i], (#[trigger] moves[i]).0)
        &&& leaves_reserved(moves[i].1)
        &&& states[i + 1] == after(states[i], moves[i].0, moves[i].1)
    }
}

/// Whether thread `t` has put its node into the list and waits for it to be unparked.
pub open spec fn waits(s: System, t: usize) -> bool {
    s.threads.contains_key(t) && (s.threads[t] matches Thread::Parking { action, .. }
        && action is Wait)
}

/// The first node that a thread has still to unpark, or 0.
pub open spec fn remaining(thread: Thread) -> usize {
    match thread {
        Thread::Unparking { work: UnparkAction::Visit { node }, .. } => node,
        Thread::Unparking { work: UnparkAction::Unpark { node }, .. } => node,
        _ => 0,
    }
}

/// The node that each thread's node is linked to.
pub open spec fn nexts(s: System) -> Map<usize, usize> {
    Map::new(|t: usize| s.threads.contains_key(t), |t: usize| node_of(s.links[t]))
}

/// Where the list in the word, and what is left of each thread's walk, start.
pub open spec fn heads(s: System) -> Map<Option<usize>, usize> {
    Map::new(
        |home: Option<usize>| home matches Some(t) ==> s.threads.contains_key(t),
        |home: Option<usize>|
            match home {
                None => node_of(s.word),
                Some(t) => remaining(s.threads[t]),
            },
    )
}

/// What holds of how far thread `t` has come.
pub open spec fn thread_sound(s: System, t: usize) -> bool {
    match s.threads[t] {
        Thread::Parking { call, action } => {
            &&& call.me == t
            &&& match call.phase {
                Phase::Idle => action is Return,
                Phase::Loading => action is Load,
                Phase::Linking { current } => {
                    &&& (s.should_park)(t, public_bits(current))
                    &&& action matches ParkAction::Enqueue { link, current: seen, new, .. } && link
                        == current && seen == current && new == with_node(current, t)
                },
                Phase::Sleeping => action == ParkAction::Wait(Wait::Node),
                _ => false,
            }
        },
        Thread::Unparking { call, work, new } => {
            &&& reserved_bits(new) == 0
            &&& match call.phase {
                Phase::Idle => work is Return,
                Phase::Swapping => work matches UnparkAction::Swap { new: word, .. } && word
                    == new,
                Phase::Visiting { node } => node != 0 && work == (UnparkAction::Visit { node }),
                Phase::Unparking { node, next } => node != 0 && work == (UnparkAction::Unpark {
                    node,
                }) && next == node_of(s.links[node]),
                _ => false,
            }
        },
    }
}

/// What holds of the lists of waiting threads.
pub open spec fn lists_sound(s: System, lists: Map<Option<usize>, Seq<usize>>) -> bool {
    &&& family(nexts(s), heads(s), lists)
    &&& forall|home: Option<usize>, i: int, x: usize| #[trigger]
        stands(lists, home, i, x) ==> {
            &&& waits(s, x)
            &&& !s.unparked[x]
            &&& home is None ==> (s.should_park)(x, public_bits(s.word))
        }
    &&& forall|x: usize| #[trigger] waits(s, x) && !s.unparked[x] ==> listed(lists, x)
}

/// What holds in every state.
pub open spec fn sound(s: System) -> bool {
    &&& s.links.dom() == s.threads.dom()
    &&& s.unparked.dom() == s.threads.dom()
    &&& forall|t: usize| #[trigger]
        s.threads.contains_key(t) ==> node_address(t) && thread_sound(s, t)
    &&& exists|lists: Map<Option<usize>, Seq<usize>>| lists_sound(s, lists)
}

proof fn lemma_initial(s: System)
    requires
        initial(s),
    ensures
        sound(s),
{
    law_node_roundtrip(s.word, 0);
    let lists = Map::new(
        |home: Option<usize>| home matches Some(t) ==> s.threads.contains_key(t),
        |home: Option<usize>| Seq::<usize>::empty(),
    );
    assert(lists.dom() =~= heads(s).dom());
    assert(lists_sound(s, lists));
}

/// The step of a thread that neither enters nor leaves a list.
proof fn lemma_plain(s: System, t: usize, again: Option<usize>)
    requires
        sound(s),
        enabled(s, t),
        leaves_reserved(again),
        match s.threads[t] {
            Thread::Parking { action, .. } => action !is Enqueue,
            Thread::Unparking { work, .. } => work is Visit || work is Return,
        },
    ensures
        sound(after(s, t, again)),
{
    let s1 = after(s, t, again);
    let lists = choose|lists: Map<Option<usize>, Seq<usize>>| lists_sound(s, lists);
    assert(s.threads.contains_key(t));
    assert(thread_sound(s, t));
    assert(s1.threads.dom() =~= s.threads.dom());
    assert(nexts(s1) =~= nexts(s));
    assert(heads(s1) =~= heads(s));
    assert forall|x: usize| #[trigger] waits(s1, x) && !s1.unparked[x] implies listed(lists, x) by {
        assert(waits(s, x));
    }
    assert(lists_sound(s1, lists));
    assert forall|u: usize| #[trigger] s1.threads.contains_key(u) implies node_address(u)
        && thread_sound(s1, u) by {
        assert(thread_sound(s, u));
    }
}

proof fn lemma_swap(s: System, t: usize, again: Option<usize>)
    requires
        sound(s),
        enabled(s, t),
        s.threads[t] matches Thread::Unparking { work, .. } && work is Swap,
    ensures
        sound(after(s, t, again)),
{
    let s1 = after(s, t, again);
    let lists = choose|lists: Map<Option<usize>, Seq<usize>>| lists_sound(s, lists);
    assert(thread_sound(s, t));
    law_node_roundtrip(s1.word, 0);
    assert(s1.threads.dom() =~= s.threads.dom());
    assert(nexts(s1) =~= nexts(s));
    lemma_move(nexts(s), heads(s), lists, None, Some(t));
    let lists1 = lists.insert(None, Seq::empty()).insert(Some(t), lists[None]);
    assert(heads(s1) =~= heads(s).insert(None, 0).insert(Some(t), heads(s)[None]));
    assert forall|home: Option<usize>, i: int, x: usize| #[trigger]
        stands(lists1, home, i, x) implies {
        &&& waits(s1, x)
        &&& !s1.unparked[x]
        &&& home is None ==> (s1.should_park)(x, public_bits(s1.word))
    } by {
        let from = if home == Some(t) {
            None
        } else {
            home
        };
        assert(stands(lists, from, i, x));
    }
    assert forall|x: usize| #[trigger] waits(s1, x) && !s1.unparked[x] implies listed(
        lists1,
        x,
    ) by {
        assert(waits(s, x));
        let (home, i) = choose|home: Option<usize>, i: int| stands(lists, home, i, x);
        assert(home != Some(t)) by {
            assert(lists.contains_key(Some(t)));
        }
        let to = if home is None {
            Some(t)
        } else {
            home
        };
        assert(stands(lists1, to, i, x));
    }
    assert(lists_sound(s1, lists1));
    assert forall|u: usize| #[trigger] s1.threads.contains_key(u) implies node_address(u)
        && thread_sound(s1, u) by {
        assert(thread_sound(s, u));
    }
}

proof fn lemma_unpark(s: System, t: usize, again: Option<usize>)
    requires
        sound(s),
        enabled(s, t),
        s.threads[t] matches Thread::Unparking { work, .. } && work is Unpark,
    ensures
        sound(after(s, t, again)),
{
    let s1 = after(s, t, again);
    let lists = choose|lists: Map<Option<usize>, Seq<usize>>| lists_sound(s, lists);
    assert(thread_sound(s, t));
    let node = remaining(s.threads[t]);
    assert(s1.threads.dom() =~= s.threads.dom());
    lemma_pop(nexts(s), heads(s), lists, Some(t));
    assert(waits(s, node));
    assert(s1.unparked.dom() =~= s.unparked.dom());
    assert(nexts(s1) =~= nexts(s));
    let lists1 = lists.insert(Some(t), lists[Some(t)].drop_first());
    assert(heads(s1) =~= heads(s).insert(Some(t), nexts(s)[node]));
    assert forall|home: Option<usize>, i: int, x: usize| #[trigger]
        stands(lists1, home, i, x) implies {
        &&& waits(s1, x)
        &&& !s1.unparked[x]
        &&& home is None ==> (s1.should_park)(x, public_bits(s1.word))
    } by {
        let j = if home == Some(t) {
            i + 1
        } else {
            i
        };
        assert(stands(lists, home, j, x));
    }
    assert forall|x: usize| #[trigger] waits(s1, x) && !s1.unparked[x] implies listed(
        lists1,
        x,
    ) by {
        assert(waits(s, x));
        let (home, i) = choose|home: Option<usize>, i: int| stands(lists, home, i, x);
        let j = if home == Some(t) {
            i - 1
        } else {
            i
        };
        assert(stands(lists1, home, j, x));
    }
    assert(lists_sound(s1, lists1));
    assert forall|u: usize| #[trigger] s1.threads.contains_key(u) implies node_address(u)
        && thread_sound(s1, u) by {
        assert(thread_sound(s, u));
    }
}

proof fn lemma_enqueue(s: System, t: usize, again: Option<usize>)
    requires
        sound(s),
        enabled(s, t),
        s.threads[t] matches Thread::Parking { action, .. } && action is Enqueue,
    ensures
        sound(after(s, t, again)),
{
    let s1 = after(s, t, again);
    let lists = choose|lists: Map<Option<usize>, Seq<usize>>| lists_sound(s, lists);
    assert(thread_sound(s, t));
    let current = s.threads[t]->Parking_call.phase->Linking_current;
    law_node_roundtrip(current, t);
    assert(s1.threads.dom() =~= s.threads.dom());
    assert(s1.links.dom() =~= s.links.dom());
    assert(s1.unparked.dom() =~= s.unparked.dom());
    assert(nexts(s1) =~= nexts(s).insert(t, node_of(current)));
    assert(!listed(lists, t)) by {
        if listed(lists, t) {
            let (home, i) = choose|home: Option<usize>, i: int| stands(lists, home, i, t);
            assert(stands(lists, home, i, t));
        }
    }
    assert forall|u: usize| #[trigger] s1.threads.contains_key(u) implies node_address(u)
        && thread_sound(s1, u) by {
        assert(thread_sound(s, u));
        if u != t && remaining(s.threads[u]) != 0 {
            lemma_pop(nexts(s), heads(s), lists, Some(u));
        }
    }
    if s.word == current {
        lemma_push(nexts(s), heads(s), lists, None, t);
        let lists1 = lists.insert(None, seq![t] + lists[None]);
        assert(heads(s1) =~= heads(s).insert(None, t));
        assert forall|home: Option<usize>, i: int, x: usize| #[trigger]
            stands(lists1, home, i, x) implies {
            &&& waits(s1, x)
            &&& !s1.unparked[x]
            &&& home is None ==> (s1.should_park)(x, public_bits(s1.word))
        } by {
            if home is None && i > 0 {
                assert(stands(lists, home, i - 1, x));
            } else if home is Some {
                assert(stands(lists, home, i, x));
            }
        }
        assert forall|x: usize| #[trigger] waits(s1, x) && !s1.unparked[x] implies listed(
            lists1,
            x,
        ) by {
            if x == t {
                assert(stands(lists1, None, 0, t));
            } else {
                assert(waits(s, x));
                let (home, i) = choose|home: Option<usize>, i: int| stands(lists, home, i, x);
                let j = if home is None {
                    i + 1
                } else {
                    i
                };
                assert(stands(lists1, home, j, x));
            }
        }
        assert(lists_sound(s1, lists1));
    } else {
        lemma_relink(nexts(s), heads(s), lists, t, node_of(current));
        assert(heads(s1) =~= heads(s));
        assert forall|x: usize| #[trigger] waits(s1, x) && !s1.unparked[x] implies listed(
            lists,
            x,
        ) by {
            assert(waits(s, x));
        }
        assert(lists_sound(s1, lists));
    }
}

/// Every step keeps the system sound.
pub proof fn lemma_step(s: System, t: usize, again: Option<usize>)
    requires
        sound(s),
        enabled(s, t),
        leaves_reserved(again),
    ensures
        sound(after(s, t, again)),
{
    assert(thread_sound(s, t));
    match s.threads[t] {
        Thread::Parking { action, .. } => if action is Enqueue {
            lemma_enqueue(s, t, again);
        } else {
            lemma_plain(s, t, again);
        },
        Thread::Unparking { work, .. } => match work {
            UnparkAction::Swap { .. } => lemma_swap(s, t, again),
            UnparkAction::Unpark { .. } => lemma_unpark(s, t, again),
            _ => lemma_plain(s, t, again),
        },
    }
}

/// Every state of a run is sound.
pub proof fn law_always_sound(
    states: Seq<System>,
    moves: Seq<(usize, Option<usize>)>,
    i: int,
)
    requires
        is_run(states, moves),
        0 <= i < states.len(),
    ensures
        sound(states[i]),
    decreases i,
{
    if i == 0 {
        lemma_initial(states[0]);
    } else {
        law_always_sound(states, moves, i - 1);
        let (t, again) = moves[i - 1];
        lemma_step(states[i - 1], t, again);
    }
}

/// Whether thread `t` has still to unpark thread `x`: `x` stands in what is left of its walk.
pub open spec fn will_unpark(s: System, t: usize, x: usize) -> bool {
    &&& s.threads.contains_key(t)
    &&& exists|list: Seq<usize>| #[trigger]
        chain(nexts(s), remaining(s.threads[t]), list) && list.contains(x)
}

/// Whether thread `x` stands in the list in the word.
pub open spec fn is_queued(s: System, x: usize) -> bool {
    exists|list: Seq<usize>| #[trigger] chain(nexts(s), node_of(s.word), list) && list.contains(x)
}

/// No parked thread is forgotten. One that sleeps stands in the list in the word, and should be parked
/// by the public bits of the word; or it is still to be unparked by a thread that has taken the list
/// over.
pub proof fn law_no_lost_waiter(
    states: Seq<System>,
    moves: Seq<(usize, Option<usize>)>,
    i: int,
    x: usize,
)
    requires
        is_run(states, moves),
        0 <= i < states.len(),
        waits(states[i], x),
        !states[i].unparked[x],
    ensures
        ({
            ||| is_queued(states[i], x) && (states[i].should_park)(x, public_bits(states[i].word))
            ||| exists|t: usize| will_unpark(states[i], t, x)
        }),
{
    law_always_sound(states, moves, i);
    let s = states[i];
    let lists = choose|lists: Map<Option<usize>, Seq<usize>>| lists_sound(s, lists);
    let (home, j) = choose|home: Option<usize>, j: int| stands(lists, home, j, x);
    assert(lists.contains_key(home));
    assert(lists[home].contains(x));
    match home {
        None => {
            assert(is_queued(s, x));
        },
        Some(t) => {
            assert(heads(s).contains_key(home));
            assert(chain(nexts(s), remaining(s.threads[t]), lists[home]));
            assert(will_unpark(s, t, x));
        },
    }
}

/// A node that is read or unparked belongs to a thread that still sleeps on it.
pub proof fn law_nodes_alive(
    states: Seq<System>,
    moves: Seq<(usize, Option<usize>)>,
    i: int,
    t: usize,
)
    requires
        is_run(states, moves),
        0 <= i < states.len(),
        states[i].threads.contains_key(t),
        remaining(states[i].threads[t]) != 0,
    ensures
        waits(states[i], remaining(states[i].threads[t])),
        !states[i].unparked[remaining(states[i].threads[t])],
{
    law_always_sound(states, moves, i);
    let s = states[i];
    let lists = choose|lists: Map<Option<usize>, Seq<usize>>| lists_sound(s, lists);
    lemma_pop(nexts(s), heads(s), lists, Some(t));
}

/// The last to register is the first to be unparked: a thread that enqueues itself goes in front of the
/// list, and the thread that takes the list over unparks it from the front.
pub proof fn law_newest_first(
    states: Seq<System>,
    moves: Seq<(usize, Option<usize>)>,
    i: int,
    list: Seq<usize>,
)
    requires
        is_run(states, moves),
        0 <= i < moves.len(),
    ensures
        ({
            let t = moves[i].0;
            let s = states[i];
            let s1 = states[i + 1];
            &&& (s.threads[t] matches Thread::Parking {
                action: ParkAction::Enqueue { current, .. },
                ..
            } && current == s.word) && chain(nexts(s), node_of(s.word), list) ==> chain(
                nexts(s1),
                node_of(s1.word),
                seq![t] + list,
            )
            &&& (s.threads[t] matches Thread::Unparking { work, .. } && work is Swap) && chain(
                nexts(s),
                node_of(s.word),
                list,
            ) ==> chain(nexts(s1), remaining(s1.threads[t]), list)
            &&& (s.threads[t] matches Thread::Unparking { work, .. } && work is Unpark)
                && chain(nexts(s), remaining(s.threads[t]), list) ==> list.len() > 0
                && s1.unparked[list[0]] && chain(
                nexts(s1),
                remaining(s1.threads[t]),
                list.drop_first(),
            )
        }),
{
    law_always_sound(states, moves, i);
    let s = states[i];
    let s1 = states[i + 1];
    let (t, again) = moves[i];
    assert(enabled(s, t));
    assert(thread_sound(s, t));
    let lists = choose|lists: Map<Option<usize>, Seq<usize>>| lists_sound(s, lists);
    match s.threads[t] {
        Thread::Parking { action: ParkAction::Enqueue { current, .. }, .. } => {
            law_node_roundtrip(current, t);
            if current == s.word && chain(nexts(s), node_of(s.word), list) {
                assert(lists.contains_key(None));
                lemma_unique(nexts(s), node_of(s.word), list, lists[None]);
                let longer = seq![t] + list;
                assert forall|k: int| 0 <= k < longer.len() implies #[trigger] longer[k] != 0
                    && nexts(s1)[longer[k]] == at(longer, k + 1) by {
                    if k > 0 {
                        assert(longer[k] == list[k - 1]);
                        assert(stands(lists, None, k - 1, list[k - 1]));
                    }
                }
            }
        },
        Thread::Unparking { work, .. } => {
            assert(nexts(s1) =~= nexts(s));
            if work is Unpark && chain(nexts(s), remaining(s.threads[t]), list) {
                lemma_pop(nexts(s), heads(s), lists, Some(t));
                lemma_unique(nexts(s), remaining(s.threads[t]), list, lists[Some(t)]);
                lemma_rest(nexts(s), list);
            }
        },
        _ => {},
    }
}

/// The node that a thread unparks next, if that is its next operation.
pub open spec fn unparks(thread: Thread) -> Option<usize> {
    match thread {
        Thread::Unparking { work: UnparkAction::Unpark { node }, .. } => Some(node),
        _ => None,
    }
}

/// What is left of a thread's walk changes only by its own steps: the first node leaves it when the thread
/// unparks it.
proof fn lemma_walk_step(s: System, u: usize, again: Option<usize>, t: usize, rest: Seq<usize>)
    requires
        sound(s),
        enabled(s, u),
        s.threads.contains_key(t),
        chain(nexts(s), remaining(s.threads[t]), rest),
        remaining(s.threads[t]) != 0,
    ensures
        ({
            let s1 = after(s, u, again);
            if u == t && unparks(s.threads[t]) is Some {
                &&& rest.len() > 0
                &&& unparks(s.threads[t]) == Some(rest[0])
                &&& chain(nexts(s1), remaining(s1.threads[t]), rest.drop_first())
            } else {
                chain(nexts(s1), remaining(s1.threads[t]), rest)
            }
        }),
{
    let s1 = after(s, u, again);
    let lists = choose|lists: Map<Option<usize>, Seq<usize>>| lists_sound(s, lists);
    lemma_pop(nexts(s), heads(s), lists, Some(t));
    lemma_unique(nexts(s), remaining(s.threads[t]), rest, lists[Some(t)]);
    assert(thread_sound(s, t));
    assert(thread_sound(s, u));
    assert forall|k: int| 0 <= k < rest.len() implies #[trigger] rest[k] != 0 && nexts(s1)[rest[k]]
        == at(rest, k + 1) by {
        assert(stands(lists, Some(t), k, rest[k]));
        assert(waits(s, rest[k]));
    }
    if u == t {
        assert(nexts(s1) =~= nexts(s));
        lemma_rest(nexts(s), rest);
    }
}

/// The nodes that thread `t` unparks in the steps between `i` and `j`, one after the other.
pub open spec fn unparked_between(
    states: Seq<System>,
    moves: Seq<(usize, Option<usize>)>,
    i: int,
    j: int,
    t: usize,
) -> Seq<usize>
    decreases j - i,
{
    if j <= i + 1 {
        Seq::empty()
    } else {
        let nodes = unparked_between(states, moves, i, j - 1, t);
        match unparks(states[j - 1].threads[t]) {
            Some(node) if moves[j - 1].0 == t => nodes.push(node),
            _ => nodes,
        }
    }
}

/// Whether step `k` puts the node of the thread that makes it into the list in the word.
pub open spec fn registers(
    states: Seq<System>,
    moves: Seq<(usize, Option<usize>)>,
    k: int,
) -> bool {
    states[k].threads[moves[k].0] matches Thread::Parking {
        action: ParkAction::Enqueue { current, .. },
        ..
    } && current == states[k].word
}

/// The threads that put their nodes into the list in the word from step `i` to before step `j`, one
/// after the other.
pub open spec fn arrivals(
    states: Seq<System>,
    moves: Seq<(usize, Option<usize>)>,
    i: int,
    j: int,
) -> Seq<usize>
    decreases j - i,
{
    if j <= i {
        Seq::empty()
    } else {
        let threads = arrivals(states, moves, i, j - 1);
        if registers(states, moves, j - 1) {
            threads.push(moves[j - 1].0)
        } else {
            threads
        }
    }
}

/// Whether step `k` sets the word and takes the list in it over.
pub open spec fn takes_over(
    states: Seq<System>,
    moves: Seq<(usize, Option<usize>)>,
    k: int,
) -> bool {
    states[k].threads[moves[k].0] matches Thread::Unparking { work, .. } && work is Swap
}

/// Whether thread `t` is in the midst of a call that unparks, between the states `i` and `j`.
pub open spec fn keeps_unparking(states: Seq<System>, i: int, j: int, t: usize) -> bool {
    forall|k: int| i < k < j ==> remaining((#[trigger] states[k]).threads[t]) != 0
}

/// One more step of a call that unparks: what it has unparked and what is left of its walk are together
/// what they were before.
proof fn lemma_unparked_step(
    states: Seq<System>,
    moves: Seq<(usize, Option<usize>)>,
    i: int,
    j: int,
    t: usize,
    rest: Seq<usize>,
) -> (rest1: Seq<usize>)
    requires
        is_run(states, moves),
        0 <= i < j - 1,
        j < states.len(),
        states[j - 1].threads.contains_key(t),
        chain(nexts(states[j - 1]), remaining(states[j - 1].threads[t]), rest),
        remaining(states[j - 1].threads[t]) != 0,
    ensures
        states[j].threads.contains_key(t),
        chain(nexts(states[j]), remaining(states[j].threads[t]), rest1),
        unparked_between(states, moves, i, j, t) + rest1 == unparked_between(
            states,
            moves,
            i,
            j - 1,
            t,
        ) + rest,
{
    let s = states[j - 1];
    let (u, again) = moves[j - 1];
    law_always_sound(states, moves, j - 1);
    assert(enabled(s, u));
    lemma_walk_step(s, u, again, t, rest);
    let nodes = unparked_between(states, moves, i, j - 1, t);
    if u == t && unparks(s.threads[t]) is Some {
        let rest1 = rest.drop_first();
        assert(nodes.push(rest[0]) + rest1 =~= nodes + rest);
        rest1
    } else {
        rest
    }
}

proof fn lemma_unparked(
    states: Seq<System>,
    moves: Seq<(usize, Option<usize>)>,
    i: int,
    j: int,
    list: Seq<usize>,
) -> (rest: Seq<usize>)
    requires
        is_run(states, moves),
        0 <= i < j < states.len(),
        takes_over(states, moves, i),
        chain(nexts(states[i]), node_of(states[i].word), list),
        keeps_unparking(states, i, j, moves[i].0),
    ensures
        states[j].threads.contains_key(moves[i].0),
        chain(nexts(states[j]), remaining(states[j].threads[moves[i].0]), rest),
        unparked_between(states, moves, i, j, moves[i].0) + rest == list,
    decreases j - i,
{
    let t = moves[i].0;
    if j == i + 1 {
        assert(enabled(states[i], t));
        law_newest_first(states, moves, i, list);
        assert(unparked_between(states, moves, i, j, t) + list =~= list);
        list
    } else {
        let rest = lemma_unparked(states, moves, i, j - 1, list);
        assert(remaining(states[j - 1].threads[t]) != 0);
        lemma_unparked_step(states, moves, i, j, t, rest)
    }
}

/// A call that unparks sets the word, and unparks all waiting threads: when it is over, the nodes that it
/// has unparked are those of the list that stood in the word before, from the first to the last, each
/// of them once.
pub proof fn law_unparks_all(
    states: Seq<System>,
    moves: Seq<(usize, Option<usize>)>,
    i: int,
    j: int,
    list: Seq<usize>,
)
    requires
        is_run(states, moves),
        0 <= i < j < states.len(),
        takes_over(states, moves, i),
        chain(nexts(states[i]), node_of(states[i].word), list),
        keeps_unparking(states, i, j, moves[i].0),
        remaining(states[j].threads[moves[i].0]) == 0,
    ensures
        states[i].threads[moves[i].0] matches Thread::Unparking { new, .. } && states[i + 1].word
            == new,
        unparked_between(states, moves, i, j, moves[i].0) == list,
        list.no_duplicates(),
{
    let s = states[i];
    law_always_sound(states, moves, i);
    assert(enabled(s, moves[i].0));
    assert(thread_sound(s, moves[i].0));
    let rest = lemma_unparked(states, moves, i, j, list);
    assert(rest.len() == 0) by {
        if rest.len() > 0 {
            assert(rest[0] != 0);
        }
    }
    assert(unparked_between(states, moves, i, j, moves[i].0) + rest =~= unparked_between(
        states,
        moves,
        i,
        j,
        moves[i].0,
    ));
    let lists = choose|lists: Map<Option<usize>, Seq<usize>>| lists_sound(s, lists);
    assert(lists.contains_key(None));
    lemma_unique(nexts(s), node_of(s.word), list, lists[None]);
    assert forall|a: int, b: int| 0 <= a < list.len() && 0 <= b < list.len() && a != b implies list[a]
        != list[b] by {
        assert(stands(lists, None, a, list[a]));
        assert(stands(lists, None, b, list[b]));
    }
}

/// The list in the word holds the threads that have registered since it was empty, the last one first.
pub proof fn law_list_is_arrivals(
    states: Seq<System>,
    moves: Seq<(usize, Option<usize>)>,
    i: int,
    j: int,
)
    requires
        is_run(states, moves),
        0 <= i <= j < states.len(),
        reserved_bits(states[i].word) == 0,
        forall|k: int| i <= k < j ==> !(#[trigger] takes_over(states, moves, k)),
    ensures
        chain(
            nexts(states[j]),
            node_of(states[j].word),
            arrivals(states, moves, i, j).reverse(),
        ),
    decreases j - i,
{
    let list = arrivals(states, moves, i, j).reverse();
    if i == j {
        law_node_roundtrip(states[i].word, 0);
        assert(list.len() == 0);
    } else {
        law_list_is_arrivals(states, moves, i, j - 1);
        law_always_sound(states, moves, j - 1);
        let before = arrivals(states, moves, i, j - 1).reverse();
        let s = states[j - 1];
        let s1 = states[j];
        let (t, again) = moves[j - 1];
        assert(enabled(s, t));
        assert(thread_sound(s, t));
        assert(!takes_over(states, moves, j - 1));
        if registers(states, moves, j - 1) {
            law_newest_first(states, moves, j - 1, before);
            assert(list =~= seq![t] + before);
        } else {
            assert(s1.word == s.word);
            let lists = choose|lists: Map<Option<usize>, Seq<usize>>| lists_sound(s, lists);
            assert(lists.contains_key(None));
            lemma_unique(nexts(s), node_of(s.word), before, lists[None]);
            assert forall|k: int| 0 <= k < before.len() implies #[trigger] before[k] != 0
                && nexts(s1)[before[k]] == at(before, k + 1) by {
                assert(stands(lists, None, k, before[k]));
                assert(waits(s, before[k]));
            }
        }
    }
}

/// The last to register is the first to be unparked. A call that unparks unparks exactly the threads that
/// have registered since the list was last empty, in the reverse of the order in which they did.
pub proof fn law_last_in_first_out(
    states: Seq<System>,
    moves: Seq<(usize, Option<usize>)>,
    empty: int,
    i: int,
    j: int,
)
    requires
        is_run(states, moves),
        0 <= empty <= i < j < states.len(),
        reserved_bits(states[empty].word) == 0,
        forall|k: int| empty <= k < i ==> !(#[trigger] takes_over(states, moves, k)),
        takes_over(states, moves, i),
        keeps_unparking(states, i, j, moves[i].0),
        remaining(states[j].threads[moves[i].0]) == 0,
    ensures
        unparked_between(states, moves, i, j, moves[i].0) == arrivals(
            states,
            moves,
            empty,
            i,
        ).reverse(),
{
    law_list_is_arrivals(states, moves, empty, i);
    law_unparks_all(states, moves, i, j, arrivals(states, moves, empty, i).reverse());
}

/// Whether a thread is in a call that parks and has not returned.
pub open spec fn still_parks(s: System, t: usize) -> bool {
    s.threads.contains_key(t) && (s.threads[t] matches Thread::Parking { action, .. }
        && action !is Return)
}

/// Whether thread `t` is in a call that parks, in each state from `i` to `j`, although the public bits of the
/// word do not say that it should be parked.
pub open spec fn parks_in_vain(states: Seq<System>, i: int, j: int, t: usize) -> bool {
    forall|k: int|
        i <= k <= j ==> still_parks(#[trigger] states[k], t) && !(states[k].should_park)(
            t,
            public_bits(states[k].word),
        )
}

/// Whether thread `t` sleeps.
pub open spec fn sleeps(s: System, t: usize) -> bool {
    waits(s, t) && !s.unparked[t]
}

/// How many operations thread `t` performs in the steps from `i` to before `j`.
pub open spec fn own_steps(moves: Seq<(usize, Option<usize>)>, i: int, j: int, t: usize) -> nat
    decreases j - i,
{
    if j <= i {
        0
    } else {
        own_steps(moves, i, j - 1, t) + if moves[j - 1].0 == t {
            1nat
        } else {
            0
        }
    }
}

/// How many operations a thread that unparks has to perform until it has unparked the node at place `k` of
/// what is left of its walk.
pub open spec fn operations_left(thread: Thread, k: int) -> int {
    if unparks(thread) is Some {
        2 * k + 1
    } else {
        2 * k + 2
    }
}

/// How many operations of its own a thread needs at most to return that need not be parked.
spec fn rank(s: System, t: usize) -> nat {
    if waits(s, t) {
        2
    } else {
        1
    }
}

proof fn lemma_rank(
    states: Seq<System>,
    moves: Seq<(usize, Option<usize>)>,
    i: int,
    j: int,
    t: usize,
)
    requires
        is_run(states, moves),
        0 <= i <= j < states.len(),
        parks_in_vain(states, i, j, t),
    ensures
        own_steps(moves, i, j, t) + rank(states[j], t) <= 2,
        sleeps(states[j], t) ==> sleeps(states[i], t) && own_steps(moves, i, j, t) == 0,
    decreases j - i,
{
    assert(still_parks(states[j], t));
    if i < j {
        lemma_rank(states, moves, i, j - 1, t);
        law_always_sound(states, moves, j - 1);
        assert(still_parks(states[j - 1], t));
        assert(enabled(states[j - 1], moves[j - 1].0));
        assert(thread_sound(states[j - 1], t));
        assert(thread_sound(states[j - 1], moves[j - 1].0));
    }
}

/// As long as thread `t` sleeps, it stands in what is left of the walk of `u`, and every operation of `u`
/// brings it closer.
proof fn lemma_comes_closer(
    states: Seq<System>,
    moves: Seq<(usize, Option<usize>)>,
    i: int,
    j: int,
    t: usize,
    u: usize,
    list: Seq<usize>,
    place: int,
) -> (rest: (Seq<usize>, int))
    requires
        is_run(states, moves),
        0 <= i <= j < states.len(),
        parks_in_vain(states, i, j, t),
        sleeps(states[j], t),
        states[i].threads.contains_key(u),
        chain(nexts(states[i]), remaining(states[i].threads[u]), list),
        0 <= place < list.len(),
        list[place] == t,
    ensures
        states[j].threads.contains_key(u),
        chain(nexts(states[j]), remaining(states[j].threads[u]), rest.0),
        0 <= rest.1 < rest.0.len(),
        rest.0[rest.1] == t,
        own_steps(moves, i, j, u) + operations_left(states[j].threads[u], rest.1)
            == operations_left(states[i].threads[u], place),
    decreases j - i,
{
    if i == j {
        (list, place)
    } else {
        lemma_rank(states, moves, j - 1, j, t);
        let (rest, at) = lemma_comes_closer(states, moves, i, j - 1, t, u, list, place);
        let s = states[j - 1];
        let (mover, again) = moves[j - 1];
        law_always_sound(states, moves, j - 1);
        assert(enabled(s, mover));
        assert(rest[0] != 0);
        lemma_walk_step(s, mover, again, u, rest);
        lemma_mover(s, mover, again, u);
        if mover == u && unparks(s.threads[u]) is Some {
            assert(at > 0);
            assert(rest.drop_first()[at - 1] == t);
            (rest.drop_first(), at - 1)
        } else {
            (rest, at)
        }
    }
}

/// A thread that walks a list reads a link and unparks the node in turn.
proof fn lemma_mover(s: System, mover: usize, again: Option<usize>, u: usize)
    requires
        sound(s),
        enabled(s, mover),
        s.threads.contains_key(u),
        remaining(s.threads[u]) != 0,
    ensures
        ({
            let s1 = after(s, mover, again);
            &&& s1.threads.contains_key(u)
            &&& mover != u ==> s1.threads[u] == s.threads[u]
            &&& mover == u && unparks(s.threads[u]) is None ==> unparks(s1.threads[u]) is Some
            &&& mover == u && unparks(s.threads[u]) is Some ==> unparks(s1.threads[u]) is None
                && s1.unparked[remaining(s.threads[u])]
        }),
{
    assert(thread_sound(s, u));
}

/// A call that parks returns when the word says that it need not park any more: no wakeup is lost. From then
/// on it performs less than two operations without returning; and as long as it sleeps, it stands at some
/// place in what is left of the walk of some thread `u`, and `u` has performed fewer operations than it
/// takes to get there. So the call has returned when `u` has performed these and the thread itself has
/// performed two operations.
pub proof fn law_park_returns(
    states: Seq<System>,
    moves: Seq<(usize, Option<usize>)>,
    i: int,
    j: int,
    t: usize,
) -> (waker: (usize, Seq<usize>, int))
    requires
        is_run(states, moves),
        0 <= i <= j < states.len(),
        parks_in_vain(states, i, j, t),
    ensures
        own_steps(moves, i, j, t) < 2,
        sleeps(states[j], t) ==> {
            let (u, list, place) = waker;
            &&& states[i].threads.contains_key(u)
            &&& chain(nexts(states[i]), remaining(states[i].threads[u]), list)
            &&& 0 <= place < list.len()
            &&& list[place] == t
            &&& own_steps(moves, i, j, u) < operations_left(states[i].threads[u], place)
        },
{
    lemma_rank(states, moves, i, j, t);
    let s = states[i];
    let u = choose|u: usize| will_unpark(s, u, t);
    let list = choose|list: Seq<usize>| #[trigger]
        chain(nexts(s), remaining(s.threads[u]), list) && list.contains(t);
    let place = choose|place: int| 0 <= place < list.len() && list[place] == t;
    if sleeps(states[j], t) {
        law_no_lost_waiter(states, moves, i, t);
        assert(still_parks(states[i], t));
        lemma_comes_closer(states, moves, i, j, t, u, list, place);
    }
    (u, list, place)
}

/// The operation on the word that a thread performs next, if it is one.
pub open spec fn next_operation(thread: Thread) -> Option<Operation> {
    match thread {
        Thread::Parking { action, .. } => park_operation(action),
        Thread::Unparking { work, .. } => unpark_operation(work),
    }
}

/// The word changes by the operations that threads perform on it, and by nothing else: each step leaves there
/// what the operation leaves that [`perform_park`](super::perform_park) or
/// [`perform_unpark`](super::perform_unpark) performs for the thread.
pub proof fn law_word_changes_by_operation(states: Seq<System>, moves: Seq<(usize, Option<usize>)>, i: int)
    requires
        is_run(states, moves),
        0 <= i < moves.len(),
    ensures
        match next_operation(states[i].threads[moves[i].0]) {
            Some(operation) => states[i + 1].word == leaves(operation, states[i].word),
            None => states[i + 1].word == states[i].word,
        },
{
    law_always_sound(states, moves, i);
    assert(enabled(states[i], moves[i].0));
    assert(thread_sound(states[i], moves[i].0));
}

/// A call that unparks sets the word to the value that it was given. A call that has got further than its
/// first operation has done so, in step `k`, and has performed no other operation on the word since.
pub proof fn law_unpark_has_set_word(
    states: Seq<System>,
    moves: Seq<(usize, Option<usize>)>,
    i: int,
    t: usize,
) -> (k: int)
    requires
        is_run(states, moves),
        0 <= i < states.len(),
        states[i].threads.contains_key(t),
        states[i].threads[t] is Unparking,
        next_operation(states[i].threads[t]) is None,
    ensures
        0 <= k < i,
        moves[k].0 == t,
        states[k + 1].word == states[i].threads[t]->new,
        forall|m: int|
            k < m <= i ==> (#[trigger] states[m]).threads[t] is Unparking && next_operation(
                states[m].threads[t],
            ) is None && states[m].threads[t]->new == states[i].threads[t]->new,
    decreases i,
{
    if i == 0 {
        assert(states[0].threads.contains_key(t));
        assert(exists|new: Option<usize>| leaves_reserved(new) && states[0].threads[t] == start(t, new));
        0
    } else {
        law_always_sound(states, moves, i - 1);
        let s = states[i - 1];
        let mover = moves[i - 1].0;
        assert(enabled(states[i - 1], moves[i - 1].0));
        assert(thread_sound(states[i - 1], mover));
        if mover == t && next_operation(s.threads[t]) is Some {
            i - 1
        } else {
            law_unpark_has_set_word(states, moves, i - 1, t)
        }
    }
}

/// A thread that should be parked by the word that it has read puts its node into the list in that word and
/// sleeps, if the word is still the same.
pub proof fn law_sleeps_while_unchanged(s: System, t: usize, again: Option<usize>)
    requires
        sound(s),
        enabled(s, t),
        (s.should_park)(t, public_bits(s.word)),
        s.threads[t] matches Thread::Parking { action, .. } && action is Load,
    ensures
        ({
            let s1 = after(s, t, again);
            let s2 = after(s1, t, again);
            &&& node_of(s2.word) == t
            &&& public_bits(s2.word) == public_bits(s.word)
            &&& node_of(s2.links[t]) == node_of(s.word)
            &&& sleeps(s2, t)
        }),
{
    assert(thread_sound(s, t));
    law_node_roundtrip(s.word, t);
}

} // verus!
