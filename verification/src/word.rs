//! A word in memory that threads share.
//!
//! Which value an operation finds in the word depends on the other threads. What holds of it in any case
//! is that it is one of the values that the word holds in the course of its life: [`values`] names these.
//! What is done to a word is named as well: [`loads`], [`stores`], [`swaps`] and [`exchanges`] are the
//! operations that are performed on it in the course of its life, with their arguments, their memory orders
//! and what they found. The decisions are made by functions that take the value as an argument.
//!
//! A sequence of operations on a word is not stated by saying that each is among those of its life. So the
//! functions that operate on a word take it as a [`Word`], by value, and say which operations they must be
//! allowed: they can perform one operation, and none but those.

use std::sync::atomic::{AtomicBool, AtomicUsize, Ordering};
use vstd::prelude::*;

use crate::order::Order;

verus! {

/// Whether a load can have this order.
pub open spec fn orders_load(order: Order) -> bool {
    order is Relaxed || order is Acquire || order is SeqCst
}

/// Whether a store can have this order.
pub open spec fn orders_store(order: Order) -> bool {
    order is Relaxed || order is Release || order is SeqCst
}

/// The order as the operations of atomics take it.
pub open spec fn ordering_of(order: Order) -> Ordering {
    match order {
        Order::Relaxed => Ordering::Relaxed,
        Order::Acquire => Ordering::Acquire,
        Order::Release => Ordering::Release,
        Order::AcqRel => Ordering::AcqRel,
        Order::SeqCst => Ordering::SeqCst,
    }
}

/// The order that the operations of atomics take as `ordering`.
pub open spec fn order_of(ordering: Ordering) -> Order {
    match ordering {
        Ordering::Relaxed => Order::Relaxed,
        Ordering::Acquire => Order::Acquire,
        Ordering::Release => Order::Release,
        Ordering::AcqRel => Order::AcqRel,
        _ => Order::SeqCst,
    }
}

pub(crate) fn to_ordering(order: Order) -> (ordering: Ordering)
    ensures
        ordering == ordering_of(order),
    opens_invariants none
    no_unwind
{
    match order {
        Order::Relaxed => Ordering::Relaxed,
        Order::Acquire => Ordering::Acquire,
        Order::Release => Ordering::Release,
        Order::AcqRel => Ordering::AcqRel,
        Order::SeqCst => Ordering::SeqCst,
    }
}

/// The order of the load in an exchange that stores nothing.
pub open spec fn failure_order(order: Order) -> Order {
    match order {
        Order::Release => Order::Relaxed,
        Order::AcqRel => Order::Acquire,
        _ => order,
    }
}

pub(crate) fn on_failure(order: Order) -> (failure: Order)
    ensures
        failure == failure_order(order),
        orders_load(failure),
{
    match order {
        Order::Release => Order::Relaxed,
        Order::AcqRel => Order::Acquire,
        _ => order,
    }
}

/// The values that a word holds in the course of its life, from when it is made to when it is dropped. The
/// set belongs to the word and does not change with time.
pub uninterp spec fn values(word: AtomicUsize) -> Set<usize>;

/// The value that a word holds at first.
pub uninterp spec fn first_value(word: AtomicUsize) -> usize;

/// The loads of a word in the course of its life: the order, and the value found.
pub uninterp spec fn loads(word: AtomicUsize) -> Set<(Order, usize)>;

/// The stores into a word in the course of its life: the value stored, and the order.
pub uninterp spec fn stores(word: AtomicUsize) -> Set<(usize, Order)>;

/// The swaps of a word in the course of its life: the value stored, the order, and the value found.
pub uninterp spec fn swaps(word: AtomicUsize) -> Set<(usize, Order, usize)>;

/// The exchanges of a word in the course of its life: the value expected, the value to store, the order
/// when they are equal, the order when they are not, and the value found.
pub uninterp spec fn exchanges(word: AtomicUsize) -> Set<(usize, usize, Order, Order, usize)>;

/// Whether the word is, at some time, compared with `current` and set to `new` if they are equal, in this
/// order, and holds `found` then.
pub open spec fn exchanged(
    word: AtomicUsize,
    current: usize,
    new: usize,
    order: Order,
    found: usize,
) -> bool {
    exchanges(word).contains((current, new, order, failure_order(order), found))
}

/// The values that a flag holds in the course of its life, from when it is made to when it is dropped. The
/// set belongs to the flag and does not change with time.
pub uninterp spec fn flag_values(flag: AtomicBool) -> Set<bool>;

/// The value that a flag holds at first.
pub uninterp spec fn first_flag(flag: AtomicBool) -> bool;

/// The loads of a flag in the course of its life: the order, and the value found.
pub uninterp spec fn flag_loads(flag: AtomicBool) -> Set<(Order, bool)>;

/// The stores into a flag in the course of its life: the value stored, and the order.
pub uninterp spec fn flag_stores(flag: AtomicBool) -> Set<(bool, Order)>;

/// An operation on a word.
#[derive(Clone, Copy, Debug, PartialEq, Eq, Structural)]
pub enum Operation {
    /// Read the word.
    Load(Order),
    /// Set the word to `new`.
    Store { new: usize, order: Order },
    /// Set the word to `new` and get what it held.
    Swap { new: usize, order: Order },
    /// Compare the word with `current`, set it to `new` if they are equal, and get what it held.
    Exchange { current: usize, new: usize, order: Order },
}

/// What an operation that finds `found` in the word leaves there.
pub open spec fn leaves(operation: Operation, found: usize) -> usize {
    match operation {
        Operation::Load(_) => found,
        Operation::Store { new, .. } => new,
        Operation::Swap { new, .. } => new,
        Operation::Exchange { current, new, .. } => if found == current {
            new
        } else {
            found
        },
    }
}

/// The order in which an operation that changes the word writes it.
pub open spec fn write_order(operation: Operation) -> Order {
    match operation {
        Operation::Load(order) => order,
        Operation::Store { order, .. } => order,
        Operation::Swap { order, .. } => order,
        Operation::Exchange { order, .. } => order,
    }
}

/// The order in which an operation reads the word that finds `found` there.
pub open spec fn read_order(operation: Operation, found: usize) -> Order {
    match operation {
        Operation::Exchange { current, order, .. } => if found == current {
            order
        } else {
            failure_order(order)
        },
        _ => write_order(operation),
    }
}

/// The right to perform one operation on a word. Performing it uses the right up.
pub struct Access<'a> {
    word: &'a AtomicUsize,
    operation: Ghost<Operation>,
}

impl<'a> Access<'a> {
    /// The word.
    pub closed spec fn target(self) -> AtomicUsize {
        *self.word
    }

    /// The operation.
    pub closed spec fn operation(self) -> Operation {
        self.operation@
    }
}

/// Access to a word that can be used for one operation, and for none that is not allowed.
///
/// A function that takes any such access and asks for no more than to be allowed one operation performs
/// that one, or none. A reference to an atomic allows every operation.
pub trait Word<'a>: Sized {
    /// The word.
    spec fn target(self) -> AtomicUsize;

    /// Whether this operation may be performed.
    spec fn allows(self, operation: Operation) -> bool;

    /// The right to perform an operation.
    fn access(self, operation: Operation) -> (access: Access<'a>)
        requires
            self.allows(operation),
        ensures
            access.target() == self.target(),
            access.operation() == operation,
    ;
}

impl<'a> Word<'a> for &'a AtomicUsize {
    open spec fn target(self) -> AtomicUsize {
        *self
    }

    open spec fn allows(self, operation: Operation) -> bool {
        true
    }

    fn access(self, operation: Operation) -> (access: Access<'a>) {
        Access { word: self, operation: Ghost(operation) }
    }
}

/// An operation on a flag.
#[derive(Clone, Copy, Debug, PartialEq, Eq, Structural)]
pub enum FlagOperation {
    /// Read the flag.
    Load(Order),
    /// Set the flag to `new`.
    Store { new: bool, order: Order },
}

/// The right to perform one operation on a flag. Performing it uses the right up.
pub struct FlagAccess<'a> {
    flag: &'a AtomicBool,
    operation: Ghost<FlagOperation>,
}

impl<'a> FlagAccess<'a> {
    /// The flag.
    pub closed spec fn target(self) -> AtomicBool {
        *self.flag
    }

    /// The operation.
    pub closed spec fn operation(self) -> FlagOperation {
        self.operation@
    }
}

/// Access to a flag, as [`Word`] is to a word.
pub trait Flag<'a>: Sized {
    /// The flag.
    spec fn target(self) -> AtomicBool;

    /// Whether this operation may be performed.
    spec fn allows(self, operation: FlagOperation) -> bool;

    /// The right to perform an operation.
    fn access(self, operation: FlagOperation) -> (access: FlagAccess<'a>)
        requires
            self.allows(operation),
        ensures
            access.target() == self.target(),
            access.operation() == operation,
    ;
}

impl<'a> Flag<'a> for &'a AtomicBool {
    open spec fn target(self) -> AtomicBool {
        *self
    }

    open spec fn allows(self, operation: FlagOperation) -> bool {
        true
    }

    fn access(self, operation: FlagOperation) -> (access: FlagAccess<'a>) {
        FlagAccess { flag: self, operation: Ghost(operation) }
    }
}

/// Calls `AtomicUsize::new`: the word holds `value` at first.
#[verifier::external_body]
pub(crate) fn new_word(value: usize) -> (word: AtomicUsize)
    ensures
        first_value(word) == value,
        values(word).contains(value),
{
    AtomicUsize::new(value)
}

/// Calls `AtomicUsize::load`, which returns what the word holds. The load, with its order and what it found,
/// is one of the word's loads. It panics with `Release` and `AcqRel`.
#[verifier::external_body]
pub(crate) fn raw_load(word: Access<'_>, ordering: Ordering) -> (found: usize)
    requires
        word.operation() == Operation::Load(order_of(ordering)),
        ordering is Relaxed || ordering is Acquire || ordering is SeqCst,
    ensures
        values(word.target()).contains(found),
        loads(word.target()).contains((order_of(ordering), found)),
{
    word.word.load(ordering)
}

/// Calls `AtomicUsize::swap`, which returns what the word holds and lets it hold `new` next.
/// The swap, with its order and what it found, is one of the word's swaps.
#[verifier::external_body]
pub(crate) fn raw_swap(word: Access<'_>, new: usize, ordering: Ordering) -> (found: usize)
    requires
        word.operation() == (Operation::Swap { new, order: order_of(ordering) }),
    ensures
        set![found, new].subset_of(values(word.target())),
        swaps(word.target()).contains((new, order_of(ordering), found)),
{
    word.word.swap(new, ordering)
}

/// Calls `AtomicUsize::compare_exchange`, which returns what the word holds: in `Ok` if that is `current`,
/// and the word holds `new` next; in `Err` if it is not. The exchange, with its orders and what it found, is
/// one of the word's exchanges. It panics if `failure` is `Release` or `AcqRel`.
#[verifier::external_body]
pub(crate) fn raw_compare_exchange(
    word: Access<'_>,
    current: usize,
    new: usize,
    success: Ordering,
    failure: Ordering,
) -> (found: Result<usize, usize>)
    requires
        word.operation() == (Operation::Exchange { current, new, order: order_of(success) }),
        failure is Relaxed || failure is Acquire || failure is SeqCst,
    ensures
        match found {
            Ok(value) => value == current && values(word.target()).contains(value) && values(
                word.target(),
            ).contains(new) && exchanges(word.target()).contains(
                (current, new, order_of(success), order_of(failure), value),
            ),
            Err(value) => value != current && values(word.target()).contains(value) && exchanges(
                word.target(),
            ).contains((current, new, order_of(success), order_of(failure), value)),
        },
{
    word.word.compare_exchange(current, new, success, failure)
}

/// Calls `AtomicBool::new`: the flag holds `value` at first.
#[verifier::external_body]
pub(crate) fn new_flag(value: bool) -> (flag: AtomicBool)
    ensures
        first_flag(flag) == value,
        flag_values(flag).contains(value),
{
    AtomicBool::new(value)
}

/// Calls `AtomicBool::load`, which returns what the flag holds. The load, with its order and what it found,
/// is one of the flag's loads. It panics with `Release` and `AcqRel`.
#[verifier::external_body]
pub(crate) fn raw_load_flag(flag: FlagAccess<'_>, ordering: Ordering) -> (found: bool)
    requires
        flag.operation() == FlagOperation::Load(order_of(ordering)),
        ordering is Relaxed || ordering is Acquire || ordering is SeqCst,
    ensures
        flag_values(flag.target()).contains(found),
        flag_loads(flag.target()).contains((order_of(ordering), found)),
{
    flag.flag.load(ordering)
}

/// Calls `AtomicBool::store` and gives the value back that the flag holds next. The store, with its order, is
/// one of the flag's stores. It panics with `Acquire` and `AcqRel`.
#[verifier::external_body]
pub(crate) fn raw_store_flag(flag: FlagAccess<'_>, value: bool, ordering: Ordering) -> (stored: bool)
    requires
        flag.operation() == (FlagOperation::Store { new: value, order: order_of(ordering) }),
        ordering is Relaxed || ordering is Release || ordering is SeqCst,
    ensures
        stored == value && flag_values(flag.target()).contains(stored) && flag_stores(
            flag.target(),
        ).contains(
            (stored, order_of(ordering)),
        ),
{
    flag.flag.store(value, ordering);
    value
}

/// Calls `AtomicUsize::store` and gives the value back that the word holds next. The store, with its order, is
/// one of the word's stores. It does not unwind when the order is one that a store can have.
#[verifier::external_body]
fn raw_store(word: Access<'_>, value: usize, ordering: Ordering) -> (stored: usize)
    requires
        word.operation() == (Operation::Store { new: value, order: order_of(ordering) }),
        ordering is Relaxed || ordering is Release || ordering is SeqCst,
    ensures
        stored == value && values(word.target()).contains(stored) && stores(word.target()).contains(
            (stored, order_of(ordering)),
        ),
    opens_invariants none
    no_unwind
{
    word.word.store(value, ordering);
    value
}

/// Stores `value` into the word. The right to do so is not used up: a guard that stores when it is dropped
/// cannot part with it.
pub(crate) fn store(access: &Access<'_>, value: usize, order: Order)
    requires
        access.operation() == (Operation::Store { new: value, order }),
        orders_store(order),
    ensures
        values(access.target()).contains(value),
        stores(access.target()).contains((value, order)),
    opens_invariants none
    no_unwind
{
    let access = Access { word: access.word, operation: Ghost(access.operation@) };
    let _stored: usize = raw_store(access, value, to_ordering(order));
}

} // verus!
