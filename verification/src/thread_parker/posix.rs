//! Parking where the platform has mutexes and condition variables: parked threads form a linked list
//! in the reserved bits of the word.

use vstd::prelude::*;

use super::{
    public_bits, reserved_bits, Futex, ParkAction, ParkEvent, UnparkAction, UnparkEvent, Wait,
    FREE_BITS, RESERVED_MASK,
};
use crate::order::Order;

verus! {

/// The address of the newest parked thread's node, or 0.
pub open spec fn node_of(word: usize) -> usize {
    reserved_bits(word) << FREE_BITS
}

/// `word` with the node at `me` in front of the list.
pub open spec fn with_node(word: usize, me: usize) -> usize {
    public_bits(word) | (me >> FREE_BITS)
}

/// An address that can stand in the reserved bits: not null, and with as many low bits free as there
/// are public bits.
pub open spec fn node_address(node: usize) -> bool {
    node != 0 && node & 0x1f == 0
}

/// A node can be read back from the word it was put into, and leaves the public bits alone.
pub proof fn law_node_roundtrip(word: usize, me: usize)
    ensures
        me & 0x1f == 0 ==> node_of(with_node(word, me)) == me,
        public_bits(with_node(word, me)) == public_bits(word),
        reserved_bits(word) == 0 ==> node_of(word) == 0,
{
    assert(me & 0x1f == 0 ==> node_of(with_node(word, me)) == me) by (bit_vector);
    assert(public_bits(with_node(word, me)) == public_bits(word)) by (bit_vector);
    assert(0usize << 5 == 0) by (bit_vector);
}

/// How far a call has come.
#[derive(Clone, Copy, Debug, PartialEq, Eq, Structural)]
pub enum Phase {
    /// Nothing was performed yet, or the call is over.
    Idle,
    /// The word is being loaded.
    Loading,
    /// The own node is being put in front of the list in `current`.
    Linking { current: usize },
    /// The thread sleeps.
    Sleeping,
    /// The word is being replaced, and the list in it taken over.
    Swapping,
    /// The link of this node is being read.
    Visiting { node: usize },
    /// The node is being unparked. The next one is `next`.
    Unparking { node: usize, next: usize },
}

/// A call on a platform where parked threads form a list. `me` is the address of the calling thread's
/// node.
#[derive(Clone, Copy, Debug, PartialEq, Eq, Structural)]
pub struct QueueFutex {
    pub me: usize,
    pub phase: Phase,
}

impl QueueFutex {
    /// A call that has done nothing yet. A call that parks needs the address of a node of the calling
    /// thread's own, which stays where it is until the call is over. In the word it stands without
    /// its lowest [`FREE_BITS`] bits.
    pub fn new(me: usize) -> (call: Self)
        ensures
            call == (QueueFutex { me, phase: Phase::Idle }),
    {
        QueueFutex { me, phase: Phase::Idle }
    }

    /// How a call that parks goes on that has just read `word`.
    pub open spec fn has_read(self, word: usize, parks: bool) -> (Self, ParkAction) {
        if parks {
            (
                QueueFutex { phase: Phase::Linking { current: word }, ..self },
                ParkAction::Enqueue {
                    link: word,
                    current: word,
                    new: with_node(word, self.me),
                    order: Order::Release,
                },
            )
        } else {
            (QueueFutex { phase: Phase::Idle, ..self }, ParkAction::Return)
        }
    }

    fn on_read(&mut self, word: usize, parks: bool) -> (action: ParkAction)
        ensures
            (*final(self), action) == old(self).has_read(word, parks),
    {
        if parks {
            self.phase = Phase::Linking { current: word };
            ParkAction::Enqueue {
                link: word,
                current: word,
                new: (word & !RESERVED_MASK) | (self.me >> FREE_BITS),
                order: Order::Release,
            }
        } else {
            self.phase = Phase::Idle;
            ParkAction::Return
        }
    }

    /// How a call that unparks goes on that has the nodes from `node` on still to unpark.
    pub open spec fn walks(self, node: usize) -> (Self, UnparkAction) {
        if node == 0 {
            (QueueFutex { phase: Phase::Idle, ..self }, UnparkAction::Return)
        } else {
            (
                QueueFutex { phase: Phase::Visiting { node }, ..self },
                UnparkAction::Visit { node },
            )
        }
    }

    fn walk(&mut self, node: usize) -> (action: UnparkAction)
        ensures
            (*final(self), action) == old(self).walks(node),
    {
        if node == 0 {
            self.phase = Phase::Idle;
            UnparkAction::Return
        } else {
            self.phase = Phase::Visiting { node };
            UnparkAction::Visit { node }
        }
    }
}

impl Futex for QueueFutex {
    open spec fn park_answers(self, event: ParkEvent) -> bool {
        match self.phase {
            Phase::Idle => event is Start,
            Phase::Loading => event is Loaded,
            Phase::Linking { .. } => event is Swapped,
            Phase::Sleeping => event is Woken,
            _ => false,
        }
    }

    open spec fn park_reads(self, event: ParkEvent) -> Option<usize> {
        match (self.phase, event) {
            (Phase::Loading, ParkEvent::Loaded(word)) => Some(word),
            (Phase::Linking { current }, ParkEvent::Swapped(word)) => if word != current {
                Some(word)
            } else {
                None
            },
            _ => None,
        }
    }

    open spec fn park_room(self, word: usize) -> bool {
        true
    }

    open spec fn park_next(self, event: ParkEvent, parks: bool) -> (Self, ParkAction) {
        match self.park_reads(event) {
            Some(word) => self.has_read(word, parks),
            None => match self.phase {
                Phase::Linking { .. } => (
                    QueueFutex { phase: Phase::Sleeping, ..self },
                    ParkAction::Wait(Wait::Node),
                ),
                _ => (
                    QueueFutex { phase: Phase::Loading, ..self },
                    ParkAction::Load(Order::Relaxed),
                ),
            },
        }
    }

    proof fn law_return_follows_read(self, event: ParkEvent, parks: bool) {
    }

    proof fn law_orders(self, event: ParkEvent, parks: bool, done: UnparkEvent, new: usize) {
    }

    proof fn law_unpark_sets_word(self, event: UnparkEvent, new: usize) {
    }

    proof fn law_park_keeps_public_bits(self, event: ParkEvent, parks: bool, found: usize) {
        if let Some(word) = self.park_reads(event) {
            law_node_roundtrip(word, self.me);
        }
    }

    fn park<P>(&mut self, event: ParkEvent, should_park: P) -> (action: ParkAction) where
        P: Fn(usize) -> bool,
     {
        let read: Option<usize> = match (self.phase, event) {
            (Phase::Loading, ParkEvent::Loaded(word)) => Some(word),
            (Phase::Linking { current }, ParkEvent::Swapped(word)) => if word != current {
                Some(word)
            } else {
                None
            },
            _ => None,
        };
        let mut parks = true;
        let action = match read {
            Some(word) => {
                parks = should_park(word & !RESERVED_MASK);
                self.on_read(word, parks)
            },
            None => match self.phase {
                Phase::Linking { .. } => {
                    // We have enqueued ourselves.
                    self.phase = Phase::Sleeping;
                    ParkAction::Wait(Wait::Node)
                },
                _ => {
                    self.phase = Phase::Loading;
                    ParkAction::Load(Order::Relaxed)
                },
            },
        };
        assert((*self, action) == old(self).park_next(event, parks));
        action
    }

    open spec fn unpark_answers(self, event: UnparkEvent) -> bool {
        match self.phase {
            Phase::Idle => event is Start,
            Phase::Swapping => event is Swapped,
            Phase::Visiting { .. } => event is Link,
            Phase::Unparking { .. } => event is Finished,
            _ => false,
        }
    }

    open spec fn unpark_next(self, event: UnparkEvent, new: usize) -> (Self, UnparkAction) {
        match (self.phase, event) {
            (Phase::Swapping, UnparkEvent::Swapped(word)) => self.walks(node_of(word)),
            (Phase::Visiting { node }, UnparkEvent::Link(link)) => (
                QueueFutex { phase: Phase::Unparking { node, next: node_of(link) }, ..self },
                UnparkAction::Unpark { node },
            ),
            (Phase::Unparking { next, .. }, UnparkEvent::Finished) => self.walks(next),
            _ => (
                QueueFutex { phase: Phase::Swapping, ..self },
                UnparkAction::Swap { new, order: Order::AcqRel },
            ),
        }
    }

    fn store_and_unpark(&mut self, event: UnparkEvent, new: usize) -> (action: UnparkAction) {
        match (self.phase, event) {
            (Phase::Swapping, UnparkEvent::Swapped(word)) => self.walk(
                (word & RESERVED_MASK) << FREE_BITS,
            ),
            (Phase::Visiting { node }, UnparkEvent::Link(link)) => {
                let next: usize = (link & RESERVED_MASK) << FREE_BITS;
                self.phase = Phase::Unparking { node, next };
                UnparkAction::Unpark { node }
            },
            (Phase::Unparking { next, .. }, UnparkEvent::Finished) => self.walk(next),
            _ => {
                self.phase = Phase::Swapping;
                UnparkAction::Swap { new, order: Order::AcqRel }
            },
        }
    }
}

} // verus!
