//! The flag of a parker, and what calls do to it.

use std::sync::atomic::AtomicBool;
use vstd::prelude::*;

use super::posix_parker::{on_flag, park_next, unpark_next, ParkerAction, ParkerEvent};
use crate::operation::{load_flag, store_flag};
use crate::order::Order;
use crate::word::{
    first_flag, flag_loads, flag_stores, flag_values, new_flag, Flag, FlagOperation,
};

verus! {

/// The flag of a parker. Its mutex and its condition variable belong to the caller.
#[derive(Debug)]
pub struct PosixParker<S = AtomicBool> {
    should_park: S,
}

impl PosixParker<AtomicBool> {
    /// A parker that was not unparked.
    pub(crate) fn armed() -> (parker: PosixParker)
        ensures
            first_flag(parker.flag()),
            flag_values(parker.flag()).contains(true),
    {
        PosixParker { should_park: new_flag(true) }
    }

    /// An atomic allows every operation.
    pub(crate) proof fn lemma_allows(self, operation: FlagOperation)
        ensures
            self.allows(operation),
    {
    }
}

impl<S> PosixParker<S> where for <'b>&'b S: Flag<'b> {
    /// The flag.
    pub closed spec fn flag(self) -> AtomicBool {
        (&self.should_park).target()
    }

    /// Whether this operation on the flag may be performed.
    pub closed spec fn allows(self, operation: FlagOperation) -> bool {
        (&self.should_park).allows(operation)
    }

    /// Takes in what the last operation of a call that parks gave back, and tells the next one. When it has
    /// the mutex it reads the flag; it does nothing else to it.
    pub(crate) fn on_park(&self, event: ParkerEvent) -> (action: ParkerAction)
        requires
            event !is Signaled,
            event is Locked || event is Woken ==> self.allows(FlagOperation::Load(Order::Relaxed)),
        ensures
            exists|should_park: bool|
                {
                    &&& event is Locked || event is Woken ==> flag_values(self.flag()).contains(
                        should_park,
                    ) && flag_loads(self.flag()).contains((Order::Relaxed, should_park))
                    &&& action == #[trigger] park_next(event, should_park)
                },
    {
        match event {
            ParkerEvent::Start => {
                assert(ParkerAction::Lock == park_next(event, true));
                ParkerAction::Lock
            },
            ParkerEvent::Unlocked => {
                assert(ParkerAction::Return == park_next(event, true));
                ParkerAction::Return
            },
            _ => {
                let should_park = load_flag(&self.should_park, Order::Relaxed);
                let action = on_flag(should_park);
                assert(action == park_next(event, should_park));
                action
            },
        }
    }

    /// Takes in what the last operation of a call that unparks gave back, and tells the next one. When it has
    /// the mutex it clears the flag; it does nothing else to it.
    pub(crate) fn on_unpark(&self, event: ParkerEvent) -> (action: ParkerAction)
        requires
            event !is Woken,
            event is Locked ==> self.allows(
                FlagOperation::Store { new: false, order: Order::Relaxed },
            ),
        ensures
            action == unpark_next(event),
            event is Locked ==> flag_values(self.flag()).contains(false) && flag_stores(
                self.flag(),
            ).contains((false, Order::Relaxed)),
    {
        match event {
            ParkerEvent::Start => ParkerAction::Lock,
            ParkerEvent::Locked => {
                store_flag(&self.should_park, false, Order::Relaxed);
                ParkerAction::Signal
            },
            ParkerEvent::Unlocked => ParkerAction::Return,
            _ => ParkerAction::Unlock,
        }
    }
}

} // verus!
