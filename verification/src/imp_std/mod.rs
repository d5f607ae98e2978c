//! A once-only cell whose waiting threads form a linked list inside the state word.
//!
//! The state word is `INCOMPLETE`, `COMPLETE`, or `RUNNING` together with the address of the newest
//! waiting thread's node. A thread that wants the cell initialized follows the steps that
//! [`Initializer`] hands out: it performs the operation that [`Initializer::action`] names and
//! reports what came back with [`Initializer::advance`].

pub mod protocol;

use vstd::prelude::*;

use crate::order::Order;
use crate::slot::fill;
use crate::operation::{compare_and_swap, load, swap};
use crate::word::{exchanged, loads, orders_load, swaps, values, Operation, Word};

verus! {

/// The cell is empty and nobody is filling it.
pub const INCOMPLETE: usize = 0x0;

/// One thread is running its initializer; the other bits hold the queue of waiting threads.
pub const RUNNING: usize = 0x1;

/// The cell is filled, for good.
pub const COMPLETE: usize = 0x2;

/// The bits of the state word that tell the state. All others are the queue of waiting threads.
pub const STATE_MASK: usize = 0x3;

/// Whether a state word says that some thread is running its initializer.
pub open spec fn is_running(word: usize) -> bool {
    word & STATE_MASK == RUNNING
}

/// The address of the newest waiting thread's node, or 0.
pub open spec fn queue_head(word: usize) -> usize {
    word & !STATE_MASK
}

/// The state word that puts the node at `node` in front of the queue.
pub open spec fn with_head(node: usize) -> usize {
    node | RUNNING
}

/// An address that can stand in a state word: not null, and with the state bits free.
pub open spec fn node_address(node: usize) -> bool {
    node != 0 && node & STATE_MASK == 0
}

/// What the state word becomes when an initializer has ended.
pub open spec fn settled_word(success: bool) -> usize {
    if success {
        COMPLETE
    } else {
        INCOMPLETE
    }
}

/// How far one call has come, by the operation that it performs next.
#[derive(Clone, Copy, Debug, PartialEq, Eq, Structural)]
pub enum Phase {
    /// Read the state word.
    Load { order: Order },
    /// Replace `INCOMPLETE` by `RUNNING`.
    Claim,
    /// Run the initializer. This thread alone does so.
    Run,
    /// Replace the state word by the final one and take the queue over.
    Settle { success: bool },
    /// Read the link of a node of the queue taken over, and take the thread handle out of it.
    Visit { node: usize, success: bool },
    /// Tell the node's thread that it may go on. The node is gone after this.
    Signal { node: usize, next: usize, success: bool },
    /// Unpark the thread that was signaled.
    Unpark { node: usize, next: usize, success: bool },
    /// Put the own node in front of the queue, if the state word still is `state`.
    Enqueue { state: usize },
    /// Read the own node's signal.
    Check,
    /// Park.
    Park,
    /// The call is over.
    Done { success: bool },
}

/// What an operation gave back.
#[derive(Clone, Copy, Debug, PartialEq, Eq, Structural)]
pub enum Event {
    /// The state word that was read, or that an exchange found.
    Word(usize),
    /// The initializer returned, or unwound (`false`).
    Ran(bool),
    /// The link of the node that was read.
    Link(usize),
    /// The own node's signal.
    Flag(bool),
    /// The operation has no result.
    Finished,
}

/// An operation to perform.
#[derive(Clone, Copy, Debug, PartialEq, Eq, Structural)]
pub enum Action {
    /// Load the state word.
    Load(Order),
    /// Compare the state word with `current`, and set it to `new` if they are equal.
    CompareAndSwap { current: usize, new: usize, order: Order },
    /// Run the initializer and fill the slot if it succeeds.
    Run,
    /// Exchange the state word for `new`.
    Swap { new: usize, order: Order },
    /// Take the thread out of the node at this address and read the node's link.
    Visit { node: usize },
    /// Set the signal of the node at this address.
    Signal { node: usize, order: Order },
    /// Unpark the thread that was taken out of the node at this address.
    Unpark { node: usize },
    /// Set the own node up with this thread, no signal and the link `next`; then compare the state
    /// word with `current`, and set it to `new` if they are equal.
    Enqueue { next: usize, current: usize, new: usize, order: Order },
    /// Load the own node's signal.
    Check(Order),
    /// Park this thread.
    Park,
    /// Return: whether the cell is initialized.
    Return(bool),
}

/// Where a call goes when it has just read `word` as the state.
pub open spec fn dispatch(word: usize) -> Phase {
    if word == COMPLETE {
        Phase::Done { success: true }
    } else if word == INCOMPLETE {
        Phase::Claim
    } else {
        wait_on(word)
    }
}

/// Where a call goes that has read `word` and does not try to run its own initializer on it.
pub open spec fn wait_on(word: usize) -> Phase {
    if is_running(word) {
        Phase::Enqueue { state: word }
    } else {
        Phase::Load { order: Order::Acquire }
    }
}

/// Where a call goes that has the nodes from `node` on still to wake.
pub open spec fn walk(node: usize, success: bool) -> Phase {
    if node == 0 {
        Phase::Done { success }
    } else {
        Phase::Visit { node, success }
    }
}

/// Whether `event` is a result that the operation of `phase` can have. The word that the final
/// exchange finds must be a running one.
pub open spec fn answers(phase: Phase, event: Event) -> bool {
    match phase {
        Phase::Load { .. } | Phase::Claim | Phase::Enqueue { .. } => event is Word,
        Phase::Run => event is Ran,
        Phase::Settle { .. } => event matches Event::Word(word) && is_running(word),
        Phase::Visit { .. } => event is Link,
        Phase::Check => event is Flag,
        Phase::Signal { .. } | Phase::Unpark { .. } | Phase::Park => event is Finished,
        Phase::Done { .. } => false,
    }
}

/// The phase that follows when the operation of `phase` gave `event` back.
pub open spec fn following(phase: Phase, event: Event) -> Phase {
    match (phase, event) {
        (Phase::Load { .. }, Event::Word(word)) => dispatch(word),
        (Phase::Claim, Event::Word(word)) => if word == INCOMPLETE {
            Phase::Run
        } else {
            dispatch(word)
        },
        (Phase::Run, Event::Ran(success)) => Phase::Settle { success },
        (Phase::Settle { success }, Event::Word(word)) => walk(queue_head(word), success),
        (Phase::Visit { node, success }, Event::Link(next)) => Phase::Signal {
            node,
            next,
            success,
        },
        (Phase::Signal { node, next, success }, Event::Finished) => Phase::Unpark {
            node,
            next,
            success,
        },
        (Phase::Unpark { next, success, .. }, Event::Finished) => walk(next, success),
        (Phase::Enqueue { state }, Event::Word(word)) => if word == state {
            Phase::Check
        } else {
            wait_on(word)
        },
        (Phase::Check, Event::Flag(signaled)) => if signaled {
            Phase::Load { order: Order::Acquire }
        } else {
            Phase::Park
        },
        (Phase::Park, Event::Finished) => Phase::Check,
        _ => phase,
    }
}

/// The operation of `phase`, for the thread whose node is at `me`.
pub open spec fn operation(me: usize, phase: Phase) -> Action {
    match phase {
        Phase::Load { order } => Action::Load(order),
        Phase::Claim => Action::CompareAndSwap {
            current: INCOMPLETE,
            new: RUNNING,
            order: Order::SeqCst,
        },
        Phase::Run => Action::Run,
        Phase::Settle { success } => Action::Swap {
            new: settled_word(success),
            order: Order::SeqCst,
        },
        Phase::Visit { node, .. } => Action::Visit { node },
        Phase::Signal { node, .. } => Action::Signal { node, order: Order::SeqCst },
        Phase::Unpark { node, .. } => Action::Unpark { node },
        Phase::Enqueue { state } => Action::Enqueue {
            next: queue_head(state),
            current: state,
            new: with_head(me),
            order: Order::Release,
        },
        Phase::Check => Action::Check(Order::Acquire),
        Phase::Park => Action::Park,
        Phase::Done { success } => Action::Return(success),
    }
}

fn dispatch_on(word: usize) -> (phase: Phase)
    ensures
        phase == dispatch(word),
{
    if word == COMPLETE {
        Phase::Done { success: true }
    } else if word == INCOMPLETE {
        Phase::Claim
    } else {
        enqueue_on(word)
    }
}

fn enqueue_on(word: usize) -> (phase: Phase)
    ensures
        phase == wait_on(word),
{
    if word & STATE_MASK != RUNNING {
        Phase::Load { order: Order::Acquire }
    } else {
        Phase::Enqueue { state: word }
    }
}

fn walk_from(node: usize, success: bool) -> (phase: Phase)
    ensures
        phase == walk(node, success),
{
    if node == 0 {
        Phase::Done { success }
    } else {
        Phase::Visit { node, success }
    }
}

/// One call of `initialize` by one thread, step by step.
pub struct Initializer {
    me: usize,
    phase: Phase,
}

impl Initializer {
    /// The address of the calling thread's node.
    pub closed spec fn me(self) -> usize {
        self.me
    }

    /// How far the call has come.
    pub closed spec fn phase(self) -> Phase {
        self.phase
    }

    #[verifier::type_invariant]
    spec fn wf(self) -> bool {
        &&& node_address(self.me)
        &&& self.phase matches Phase::Load { order } ==> orders_load(order)
    }

    /// A call that has done nothing yet. `me` is the address of a node of the calling thread's own,
    /// which stays where it is until the call is over.
    pub fn new(me: usize) -> (call: Self)
        requires
            node_address(me),
        ensures
            call.me() == me,
            call.phase() == (Phase::Load { order: Order::SeqCst }),
    {
        Initializer { me, phase: Phase::Load { order: Order::SeqCst } }
    }

    /// The operation to perform next.
    pub fn action(&self) -> (action: Action)
        ensures
            action == operation(self.me(), self.phase()),
    {
        match self.phase {
            Phase::Load { order } => Action::Load(order),
            Phase::Claim => Action::CompareAndSwap {
                current: INCOMPLETE,
                new: RUNNING,
                order: Order::SeqCst,
            },
            Phase::Run => Action::Run,
            Phase::Settle { success } => Action::Swap {
                new: if success {
                    COMPLETE
                } else {
                    INCOMPLETE
                },
                order: Order::SeqCst,
            },
            Phase::Visit { node, .. } => Action::Visit { node },
            Phase::Signal { node, .. } => Action::Signal { node, order: Order::SeqCst },
            Phase::Unpark { node, .. } => Action::Unpark { node },
            Phase::Enqueue { state } => Action::Enqueue {
                next: state & !STATE_MASK,
                current: state,
                new: self.me | RUNNING,
                order: Order::Release,
            },
            Phase::Check => Action::Check(Order::Acquire),
            Phase::Park => Action::Park,
            Phase::Done { success } => Action::Return(success),
        }
    }

    /// Takes in what the operation gave back.
    pub fn advance(&mut self, event: Event)
        requires
            answers(old(self).phase(), event),
        ensures
            final(self).me() == old(self).me(),
            final(self).phase() == following(old(self).phase(), event),
    {
        proof {
            use_type_invariant(&*self);
        }
        self.phase = match (self.phase, event) {
            (Phase::Load { .. }, Event::Word(word)) => dispatch_on(word),
            (Phase::Claim, Event::Word(word)) => if word != INCOMPLETE {
                dispatch_on(word)
            } else {
                Phase::Run
            },
            (Phase::Run, Event::Ran(success)) => Phase::Settle { success },
            (Phase::Settle { success }, Event::Word(word)) => walk_from(
                word & !STATE_MASK,
                success,
            ),
            (Phase::Visit { node, success }, Event::Link(next)) => Phase::Signal {
                node,
                next,
                success,
            },
            (Phase::Signal { node, next, success }, Event::Finished) => Phase::Unpark {
                node,
                next,
                success,
            },
            (Phase::Unpark { next, success, .. }, Event::Finished) => walk_from(next, success),
            (Phase::Enqueue { state }, Event::Word(word)) => if word != state {
                enqueue_on(word)
            } else {
                Phase::Check
            },
            (Phase::Check, Event::Flag(signaled)) => if signaled {
                Phase::Load { order: Order::Acquire }
            } else {
                Phase::Park
            },
            (Phase::Park, Event::Finished) => Phase::Check,
            (phase, _) => phase,
        };
    }
}

/// Whether `word` is that of a filled cell.
pub fn is_complete(word: usize) -> (complete: bool)
    ensures
        complete == (word == COMPLETE),
{
    word == COMPLETE
}

/// Whether an initializer that is about to settle the cell may have found `word`.
pub fn is_claimed(word: usize) -> (claimed: bool)
    ensures
        claimed == is_running(word),
{
    word & STATE_MASK == RUNNING
}

/// Whether the cell with this state word is filled. What the initializer wrote is visible to this thread
/// then.
pub fn is_initialized<'a, W: Word<'a>>(word: W) -> (filled: bool)
    requires
        word.allows(Operation::Load(Order::Acquire)),
    ensures
        exists|found: usize|
            values(word.target()).contains(found) && #[trigger] loads(word.target()).contains(
                (Order::Acquire, found),
            ) && filled == (found == COMPLETE),
{
    is_complete(load(word, Order::Acquire))
}

/// The operation on the state word that an action is, if it is one.
pub open spec fn on_word(action: Action) -> Option<Operation> {
    match action {
        Action::Load(order) => Some(Operation::Load(order)),
        Action::CompareAndSwap { current, new, order } => Some(
            Operation::Exchange { current, new, order },
        ),
        Action::Swap { new, order } => Some(Operation::Swap { new, order }),
        Action::Enqueue { current, new, order, .. } => Some(
            Operation::Exchange { current, new, order },
        ),
        _ => None,
    }
}

/// Performs the operation of `call`, if it is one on the state word, and gives the word that it found. It
/// performs no other, and that one once. A node that is to be put into the queue must be set up before.
pub fn perform<'a, W: Word<'a>>(word: W, call: &Initializer) -> (found: Option<usize>)
    requires
        on_word(operation(call.me(), call.phase())) matches Some(operation) ==> word.allows(operation),
    ensures
        match operation(call.me(), call.phase()) {
            Action::Load(order) => found matches Some(value) && loads(word.target()).contains(
                (order, value),
            ),
            Action::CompareAndSwap { current, new, order } => found matches Some(value)
                && exchanged(word.target(), current, new, order, value),
            Action::Swap { new, order } => found matches Some(value) && swaps(word.target()).contains(
                (new, order, value),
            ),
            Action::Enqueue { current, new, order, .. } => found matches Some(value) && exchanged(
                word.target(),
                current,
                new,
                order,
                value,
            ),
            _ => found is None,
        },
        found matches Some(value) ==> values(word.target()).contains(value),
        call.phase() is Claim && found == Some(INCOMPLETE) ==> values(word.target()).contains(RUNNING),
        call.phase() matches Phase::Settle { success } ==> values(word.target()).contains(
            settled_word(success),
        ),
        call.phase() matches Phase::Enqueue { state } && found == Some(state) ==> values(
            word.target(),
        ).contains(with_head(call.me())),
{
    proof {
        use_type_invariant(call);
    }
    match call.action() {
        Action::Load(order) => Some(load(word, order)),
        Action::CompareAndSwap { current, new, order } => Some(
            compare_and_swap(word, current, new, order),
        ),
        Action::Swap { new, order } => Some(swap(word, new, order)),
        Action::Enqueue { current, new, order, .. } => Some(
            compare_and_swap(word, current, new, order),
        ),
        _ => None,
    }
}

/// What a cell holds after a call that nobody interferes with. It held `before`; `outcome` is what the
/// initializer of the call returns if it runs, nothing if it fails.
pub open spec fn left_by<T>(before: Option<T>, outcome: Option<T>) -> Option<T> {
    if before is Some {
        before
    } else {
        outcome
    }
}

/// A cell that its owner alone has access to.
///
/// No other thread can be in the way, so that every call is over at once. A call on a shared cell goes
/// through [`Initializer`]; where no other thread interferes, it leaves the same behind
/// ([`protocol::law_uncontended`]).
#[derive(Debug)]
pub struct OnceCell<T> {
    state: usize,
    value: Option<T>,
}

impl<T> View for OnceCell<T> {
    type V = Option<T>;

    /// What the cell holds.
    closed spec fn view(&self) -> Option<T> {
        self.value
    }
}

impl<T> OnceCell<T> {
    #[verifier::type_invariant]
    spec fn wf(self) -> bool {
        self.state == settled_word(self.value is Some)
    }

    /// The state word of the cell, which follows from what it holds.
    pub closed spec fn state(&self) -> usize {
        self.state
    }

    /// An empty cell.
    pub fn new() -> (cell: Self)
        ensures
            cell@ is None,
            cell.state() == INCOMPLETE,
    {
        OnceCell { state: INCOMPLETE, value: None }
    }

    /// Whether the cell is filled.
    pub fn is_initialized(&self) -> (filled: bool)
        ensures
            filled == (self@ is Some),
    {
        proof {
            use_type_invariant(self);
        }
        self.state == COMPLETE
    }

    /// What the cell holds.
    pub fn value(&self) -> (value: Option<&T>)
        ensures
            value == (match self@ {
                Some(v) => Some(&v),
                None => None,
            }),
    {
        self.value.as_ref()
    }

    /// Fills the cell with what `f` returns, unless it is filled already. If `f` fails, so does the
    /// call, and the cell stays empty.
    pub fn initialize<F, E>(&mut self, f: F) -> (result: Result<(), E>) where
        F: FnOnce() -> Result<T, E>,

        requires
            old(self)@ is None ==> f.requires(()),
        ensures
            old(self)@ is Some ==> result is Ok && final(self)@ == old(self)@,
            old(self)@ is None ==> match result {
                Ok(()) => final(self)@ matches Some(value) && f.ensures((), Ok(value)),
                Err(error) => final(self)@ is None && f.ensures((), Err(error)),
            },
            exists|outcome: Option<T>|
                {
                    &&& final(self)@ == #[trigger] left_by(old(self)@, outcome)
                    &&& old(self)@ is None ==> match outcome {
                        Some(value) => f.ensures((), Ok(value)),
                        None => result matches Err(error) && f.ensures((), Err(error)),
                    }
                },
            result is Ok <==> final(self)@ is Some,
            final(self).state() == settled_word(final(self)@ is Some),
    {
        proof {
            use_type_invariant(&*self);
        }
        if self.is_initialized() {
            assert(self@ == left_by(old(self)@, None));
            return Ok(());
        }
        let mut slot: Option<T> = None;
        let result = fill(&mut slot, f());
        if result.is_ok() {
            *self = OnceCell { state: COMPLETE, value: slot };
        }
        assert(self@ == left_by(old(self)@, slot));
        result
    }
}

} // verus!
