//! Parking where the platform has nothing to offer: the thread spins.

use vstd::prelude::*;

use super::{
    public_bits, Futex, ParkAction, ParkEvent, UnparkAction, UnparkEvent, Wait, RESERVED_MASK,
};
use crate::order::Order;

verus! {

/// A call that spins instead of sleeping.
#[derive(Clone, Copy, Debug, PartialEq, Eq, Structural)]
pub struct SpinFutex;

impl Futex for SpinFutex {
    open spec fn park_answers(self, event: ParkEvent) -> bool {
        !(event is Swapped)
    }

    open spec fn park_reads(self, event: ParkEvent) -> Option<usize> {
        match event {
            ParkEvent::Loaded(word) => Some(word),
            _ => None,
        }
    }

    open spec fn park_room(self, word: usize) -> bool {
        true
    }

    open spec fn park_next(self, event: ParkEvent, parks: bool) -> (Self, ParkAction) {
        (
            self,
            match event {
                ParkEvent::Loaded(_) => if parks {
                    ParkAction::Wait(Wait::Spin)
                } else {
                    ParkAction::Return
                },
                _ => ParkAction::Load(Order::Relaxed),
            },
        )
    }

    proof fn law_return_follows_read(self, event: ParkEvent, parks: bool) {
    }

    proof fn law_orders(self, event: ParkEvent, parks: bool, done: UnparkEvent, new: usize) {
    }

    proof fn law_unpark_sets_word(self, event: UnparkEvent, new: usize) {
    }

    proof fn law_park_keeps_public_bits(self, event: ParkEvent, parks: bool, found: usize) {
    }

    fn park<P>(&mut self, event: ParkEvent, should_park: P) -> (action: ParkAction) where
        P: Fn(usize) -> bool,
     {
        let mut parks = true;
        let action = match event {
            ParkEvent::Loaded(word) => {
                parks = should_park(word & !RESERVED_MASK);
                if parks {
                    ParkAction::Wait(Wait::Spin)
                } else {
                    ParkAction::Return
                }
            },
            _ => ParkAction::Load(Order::Relaxed),
        };
        assert((*self, action) == old(self).park_next(event, parks));
        action
    }

    open spec fn unpark_answers(self, event: UnparkEvent) -> bool {
        event is Start || event is Stored
    }

    open spec fn unpark_next(self, event: UnparkEvent, new: usize) -> (Self, UnparkAction) {
        (
            self,
            match event {
                UnparkEvent::Start => UnparkAction::Store { new, order: Order::Release },
                _ => UnparkAction::Return,
            },
        )
    }

    fn store_and_unpark(&mut self, event: UnparkEvent, new: usize) -> (action: UnparkAction) {
        match event {
            UnparkEvent::Start => UnparkAction::Store { new, order: Order::Release },
            _ => UnparkAction::Return,
        }
    }
}

/// A call that parks returns when the word says that it need not park any more: it loads the word after each
/// turn of the loop, and returns on the first that says so.
pub proof fn law_park_returns(
    call: SpinFutex,
    event: ParkEvent,
    word: usize,
    should_park: spec_fn(usize) -> bool,
    parks: bool,
)
    requires
        call.park_answers(event),
        !should_park(public_bits(word)),
    ensures
        event !is Loaded ==> call.park_next(event, parks).1 is Load,
        call.park_next(ParkEvent::Loaded(word), should_park(public_bits(word))).1 is Return,
{
}

} // verus!
