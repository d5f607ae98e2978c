//! Operations on words and flags that threads share, one at a time.
//!
//! Each takes the access to the word or flag by value and has to be allowed what it does, so that it can do it once
//! and nothing besides.

use vstd::prelude::*;

use crate::order::Order;
use crate::word::{
    exchanged, flag_loads, flag_stores, flag_values, loads, on_failure, orders_load, orders_store,
    raw_compare_exchange, raw_load, raw_load_flag, raw_store_flag, raw_swap, swaps, to_ordering, values,
    Flag, FlagOperation, Operation, Word,
};

verus! {

/// What the word holds.
pub(crate) fn load<'a, W: Word<'a>>(word: W, order: Order) -> (found: usize)
    requires
        word.allows(Operation::Load(order)),
        orders_load(order),
    ensures
        values(word.target()).contains(found),
        loads(word.target()).contains((order, found)),
{
    raw_load(word.access(Operation::Load(order)), to_ordering(order))
}

/// Sets the word to `new`, and gives what it held.
pub(crate) fn swap<'a, W: Word<'a>>(word: W, new: usize, order: Order) -> (found: usize)
    requires
        word.allows(Operation::Swap { new, order }),
    ensures
        values(word.target()).contains(found),
        values(word.target()).contains(new),
        swaps(word.target()).contains((new, order, found)),
{
    let access = word.access(Operation::Swap { new, order });
    let found: usize = raw_swap(access, new, to_ordering(order));
    assert(set![found, new].contains(found) && set![found, new].contains(new));
    found
}

/// Sets the word to `new` if it holds `current`, and gives what it held.
pub(crate) fn compare_and_swap<'a, W: Word<'a>>(
    word: W,
    current: usize,
    new: usize,
    order: Order,
) -> (found: usize)
    requires
        word.allows(Operation::Exchange { current, new, order }),
    ensures
        values(word.target()).contains(found),
        found == current ==> values(word.target()).contains(new),
        exchanged(word.target(), current, new, order, found),
{
    match raw_compare_exchange(
        word.access(Operation::Exchange { current, new, order }),
        current,
        new,
        to_ordering(order),
        to_ordering(on_failure(order)),
    ) {
        Ok(found) => found,
        Err(found) => found,
    }
}

/// Stores `value` into the flag.
pub(crate) fn store_flag<'a, W: Flag<'a>>(flag: W, value: bool, order: Order)
    requires
        flag.allows(FlagOperation::Store { new: value, order }),
        orders_store(order),
    ensures
        flag_values(flag.target()).contains(value),
        flag_stores(flag.target()).contains((value, order)),
{
    let access = flag.access(FlagOperation::Store { new: value, order });
    let _stored = raw_store_flag(access, value, to_ordering(order));
}

/// What the flag holds.
pub(crate) fn load_flag<'a, W: Flag<'a>>(flag: W, order: Order) -> (found: bool)
    requires
        flag.allows(FlagOperation::Load(order)),
        orders_load(order),
    ensures
        flag_values(flag.target()).contains(found),
        flag_loads(flag.target()).contains((order, found)),
{
    raw_load_flag(flag.access(FlagOperation::Load(order)), to_ordering(order))
}

} // verus!
