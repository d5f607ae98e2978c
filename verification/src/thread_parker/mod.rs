//! Parking threads on a word in memory.
//!
//! The upper [`FREE_BITS`] bits of the word are public: users give them a meaning. All bits below are
//! reserved for the way in which a platform keeps track of parked threads.
//!
//! What differs between platforms is which operations a call performs. Every platform's way is a type
//! that implements [`Futex`]: it decides, operation by operation, what a call does next.

pub mod address;
pub mod parker_flag;
pub mod posix;
pub mod posix_parker;
pub mod posix_queue;
pub mod results;
pub mod spin_loop;
pub mod windows;
pub mod windows_keyed;

pub use posix_parker::{ParkerWithState, PosixParker};

use vstd::prelude::*;

use crate::operation::{compare_and_swap, load, swap};
use crate::order::{releases, Order};
use crate::word::{
    exchanged, leaves, loads, orders_load, orders_store, store, stores, swaps, values, write_order,
    Operation, Word,
};

verus! {

/// How many bits of the word are public.
pub const FREE_BITS: usize = 5;

/// How many bits of the word are reserved.
pub const RESERVED_BITS: usize = usize::BITS as usize - FREE_BITS;

/// The reserved bits of the word.
pub const RESERVED_MASK: usize = !0usize >> FREE_BITS;

/// The public bits of a word.
pub open spec fn public_bits(word: usize) -> usize {
    word & !RESERVED_MASK
}

/// The reserved bits of a word.
pub open spec fn reserved_bits(word: usize) -> usize {
    word & RESERVED_MASK
}

/// The 32 upper bits of a word, as a number.
pub open spec fn upper_half(word: usize) -> u32 {
    (word >> ((usize::BITS - 32) as u32)) as u32
}

/// The order in which the bytes of a number stand in memory.
#[derive(Clone, Copy, Debug, PartialEq, Eq, Structural)]
pub enum Endian {
    Little,
    Big,
}

/// How far into the word the half with the public bits starts, in bytes.
pub open spec fn public_offset(endian: Endian) -> int {
    if usize::BITS == 64 && endian is Little {
        4
    } else {
        0
    }
}

/// How far from the start of a word of 64 bits the half next to that starts, in bytes.
pub open spec fn private_offset(endian: Endian) -> int {
    4 - public_offset(endian)
}

/// The address of the 32 bits of the word at `word` that hold the public bits.
pub fn as_u32_pub(word: usize, endian: Endian) -> (half: usize)
    requires
        word + 4 <= usize::MAX,
    ensures
        half == word + public_offset(endian),
{
    if usize::BITS == 64 {
        match endian {
            Endian::Little => word + 4,
            Endian::Big => word,
        }
    } else {
        word
    }
}

/// The address of the 32 bits of the word at `word` next to those that hold the public bits. They are
/// all reserved. A word of 32 bits has no such half.
pub fn as_u32_priv(word: usize, endian: Endian) -> (half: usize)
    requires
        usize::BITS == 64,
        word + 4 <= usize::MAX,
    ensures
        half == word + private_offset(endian),
{
    match endian {
        Endian::Little => word,
        Endian::Big => word + 4,
    }
}

/// The number that a platform compares with the half that holds the public bits.
pub fn compare_half(word: usize) -> (half: u32)
    ensures
        half == upper_half(word),
{
    (word >> (usize::BITS - 32)) as u32
}

/// The byte of a word of 64 bits that stands `i` bytes into it.
pub open spec fn byte_at(word: u64, i: u64, endian: Endian) -> u64 {
    match endian {
        Endian::Little => (word >> (8 * i) as u64) & 0xff,
        Endian::Big => (word >> (8 * (7 - i)) as u64) & 0xff,
    }
}

/// The number that the 32 bits hold that stand `i` bytes into a word of 64 bits.
pub open spec fn read_half(word: u64, i: u64, endian: Endian) -> u64 {
    let b0 = byte_at(word, i, endian);
    let b1 = byte_at(word, (i + 1) as u64, endian);
    let b2 = byte_at(word, (i + 2) as u64, endian);
    let b3 = byte_at(word, (i + 3) as u64, endian);
    match endian {
        Endian::Little => b0 | (b1 << 8) | (b2 << 16) | (b3 << 24),
        Endian::Big => (b0 << 24) | (b1 << 16) | (b2 << 8) | b3,
    }
}

/// The two halves of a word of 64 bits are told apart by [`as_u32_pub`] and [`as_u32_priv`]: a read at
/// the one gives the upper half, which holds all public bits, and a read at the other gives reserved
/// bits only.
pub proof fn law_halves(word: usize, endian: Endian)
    requires
        usize::BITS == 64,
    ensures
        read_half(word as u64, public_offset(endian) as u64, endian) == upper_half(word),
        read_half(word as u64, private_offset(endian) as u64, endian) == word as u64 & 0xffff_ffff,
        (word as u64 & 0xffff_ffff) & (RESERVED_MASK as u64) == word as u64 & 0xffff_ffff,
{
    let w = word as u64;
    assert(usize::BITS == 64 ==> upper_half(word) as u64 == word as u64 >> 32) by (bit_vector);
    assert(usize::BITS == 64 ==> RESERVED_MASK as u64 == 0x07ff_ffff_ffff_ffffu64) by (bit_vector);
    assert((w & 0xffff_ffff) & 0x07ff_ffff_ffff_ffff == w & 0xffff_ffff) by (bit_vector);
    assert(read_half(w, 0, Endian::Little) == w & 0xffff_ffff && read_half(w, 4, Endian::Little) == w
        >> 32 && read_half(w, 0, Endian::Big) == w >> 32 && read_half(w, 4, Endian::Big) == w
        & 0xffff_ffff) by {
        assert(((w >> 0) & 0xff) | (((w >> 8) & 0xff) << 8) | (((w >> 16) & 0xff) << 16) | (((w >> 24)
            & 0xff) << 24) == w & 0xffff_ffff) by (bit_vector);
        assert(((w >> 32) & 0xff) | (((w >> 40) & 0xff) << 8) | (((w >> 48) & 0xff) << 16) | (((w >> 56)
            & 0xff) << 24) == w >> 32) by (bit_vector);
        assert((((w >> 56) & 0xff) << 24) | (((w >> 48) & 0xff) << 16) | (((w >> 40) & 0xff) << 8) | ((w
            >> 32) & 0xff) == w >> 32) by (bit_vector);
        assert((((w >> 24) & 0xff) << 24) | (((w >> 16) & 0xff) << 16) | (((w >> 8) & 0xff) << 8) | ((w
            >> 0) & 0xff) == w & 0xffff_ffff) by (bit_vector);
    }
}

/// Two words with equal upper halves have equal public bits. So a thread that goes to sleep only while
/// the upper half is the one it has seen does not miss a change of the public bits.
pub proof fn law_half_shows_public_bits(a: usize, b: usize)
    ensures
        upper_half(a) == upper_half(b) ==> public_bits(a) == public_bits(b),
{
    assert(upper_half(a) == upper_half(b) ==> public_bits(a) == public_bits(b)) by (bit_vector);
}

/// The public and the reserved bits make up the word and have nothing in common; the reserved ones are
/// the lower [`RESERVED_BITS`] bits.
pub proof fn law_bits(word: usize)
    ensures
        RESERVED_MASK == (1usize << RESERVED_BITS) - 1,
        public_bits(word) | reserved_bits(word) == word,
        public_bits(word) & RESERVED_MASK == 0,
        reserved_bits(word) & !RESERVED_MASK == 0,
        reserved_bits(word) <= RESERVED_MASK,
{
    assert(RESERVED_MASK == (1usize << ((usize::BITS - 5) as u32)) - 1 && public_bits(word)
        | reserved_bits(word) == word && public_bits(word) & RESERVED_MASK == 0 && reserved_bits(
        word,
    ) & !RESERVED_MASK == 0 && reserved_bits(word) <= RESERVED_MASK) by (bit_vector);
}

/// What an operation of a call that parks gave back.
#[derive(Clone, Copy, Debug, PartialEq, Eq, Structural)]
pub enum ParkEvent {
    /// Nothing was performed yet.
    Start,
    /// The word that was loaded.
    Loaded(usize),
    /// The word that an exchange found.
    Swapped(usize),
    /// The thread did not go to sleep, or was woken, for whatever reason.
    Woken,
}

/// How a thread waits.
#[derive(Clone, Copy, Debug, PartialEq, Eq, Structural)]
pub enum Wait {
    /// Sleep while the half of the word that holds the public bits is this number.
    WhileHalf(u32),
    /// Sleep while the word is this number.
    WhileWord(usize),
    /// Do not sleep, but tell the processor that this is a spin loop.
    Spin,
    /// Sleep until the own node is unparked.
    Node,
    /// Sleep until the keyed event is released.
    Keyed,
}

/// An operation of a call that parks.
#[derive(Clone, Copy, Debug, PartialEq, Eq, Structural)]
pub enum ParkAction {
    /// Load the word.
    Load(Order),
    /// Compare the word with `current`, and set it to `new` if they are equal.
    CompareAndSwap { current: usize, new: usize, order: Order },
    /// Set the own node up, not unparked and with the link `link`; then compare the word with
    /// `current`, and set it to `new` if they are equal.
    Enqueue { link: usize, current: usize, new: usize, order: Order },
    /// Wait.
    Wait(Wait),
    /// Return: the thread need not be parked.
    Return,
}

/// What an operation of a call that unparks gave back.
#[derive(Clone, Copy, Debug, PartialEq, Eq, Structural)]
pub enum UnparkEvent {
    /// Nothing was performed yet.
    Start,
    /// The word was stored.
    Stored,
    /// The word that an exchange found.
    Swapped(usize),
    /// The link of the node that was read.
    Link(usize),
    /// The operation has no result.
    Finished,
}

/// An operation of a call that unparks.
#[derive(Clone, Copy, Debug, PartialEq, Eq, Structural)]
pub enum UnparkAction {
    /// Store the word.
    Store { new: usize, order: Order },
    /// Exchange the word for `new`.
    Swap { new: usize, order: Order },
    /// Wake all threads that sleep on the word.
    WakeAll,
    /// Read the link of the node at this address.
    Visit { node: usize },
    /// Unpark the node at this address. The node is gone after this.
    Unpark { node: usize },
    /// Release the keyed event once.
    Release,
    /// Return.
    Return,
}

/// The operation on the word that an action of a call that parks is, if it is one.
pub open spec fn park_operation(action: ParkAction) -> Option<Operation> {
    match action {
        ParkAction::Load(order) => Some(Operation::Load(order)),
        ParkAction::CompareAndSwap { current, new, order } => Some(
            Operation::Exchange { current, new, order },
        ),
        ParkAction::Enqueue { current, new, order, .. } => Some(
            Operation::Exchange { current, new, order },
        ),
        _ => None,
    }
}

/// The operation on the word that an action of a call that unparks is, if it is one.
pub open spec fn unpark_operation(action: UnparkAction) -> Option<Operation> {
    match action {
        UnparkAction::Store { new, order } => Some(Operation::Store { new, order }),
        UnparkAction::Swap { new, order } => Some(Operation::Swap { new, order }),
        _ => None,
    }
}

/// Performs an operation of a call that parks, if it is one on the word: this one, once, and no other. A
/// node that is to be put into a list must be set up before.
pub fn perform_park<'a, W: Word<'a>>(word: W, action: ParkAction) -> (event: Option<ParkEvent>)
    requires
        park_operation(action) matches Some(operation) ==> word.allows(operation),
        action matches ParkAction::Load(order) ==> orders_load(order),
    ensures
        match action {
            ParkAction::Load(order) => event matches Some(ParkEvent::Loaded(found)) && values(
                word.target(),
            ).contains(found) && loads(word.target()).contains((order, found)),
            ParkAction::CompareAndSwap { current, new, order } => event matches Some(
                ParkEvent::Swapped(found),
            ) && values(word.target()).contains(found) && (found == current ==> values(word.target()).contains(
                new,
            )) && exchanged(word.target(), current, new, order, found),
            ParkAction::Enqueue { current, new, order, .. } => event matches Some(
                ParkEvent::Swapped(found),
            ) && values(word.target()).contains(found) && (found == current ==> values(word.target()).contains(
                new,
            )) && exchanged(word.target(), current, new, order, found),
            _ => event is None,
        },
{
    match action {
        ParkAction::Load(order) => Some(ParkEvent::Loaded(load(word, order))),
        ParkAction::CompareAndSwap { current, new, order } => Some(
            ParkEvent::Swapped(compare_and_swap(word, current, new, order)),
        ),
        ParkAction::Enqueue { current, new, order, .. } => Some(
            ParkEvent::Swapped(compare_and_swap(word, current, new, order)),
        ),
        _ => None,
    }
}

/// Performs an operation of a call that unparks, if it is one on the word: this one, once, and no other.
pub fn perform_unpark<'a, W: Word<'a>>(word: W, action: UnparkAction) -> (event: Option<UnparkEvent>)
    requires
        unpark_operation(action) matches Some(operation) ==> word.allows(operation),
        action matches UnparkAction::Store { order, .. } ==> orders_store(order),
    ensures
        match action {
            UnparkAction::Store { new, order } => event == Some(UnparkEvent::Stored) && values(
                word.target(),
            ).contains(new) && stores(word.target()).contains((new, order)),
            UnparkAction::Swap { new, order } => event matches Some(UnparkEvent::Swapped(found))
                && values(word.target()).contains(found) && values(word.target()).contains(new) && swaps(
                word.target(),
            ).contains((new, order, found)),
            _ => event is None,
        },
{
    match action {
        UnparkAction::Store { new, order } => {
            store(&word.access(Operation::Store { new, order }), new, order);
            Some(UnparkEvent::Stored)
        },
        UnparkAction::Swap { new, order } => Some(UnparkEvent::Swapped(swap(word, new, order))),
        _ => None,
    }
}

/// A platform's way to park threads on a word and to unpark them.
///
/// A value of the type is one call on its way: either one that parks the current thread while a
/// predicate on the public bits says so, or one that stores a new word and unparks all threads.
pub trait Futex: Sized {
    /// Whether `event` is a result that the last operation of a call that parks can have.
    spec fn park_answers(self, event: ParkEvent) -> bool;

    /// The word that a call that parks has read when `event` comes back, if it has read one. Its
    /// public bits decide whether the thread is parked.
    spec fn park_reads(self, event: ParkEvent) -> Option<usize>;

    /// Whether one more thread can be parked on the word when it is `word`.
    spec fn park_room(self, word: usize) -> bool;

    /// How a call that parks goes on, and its next operation, when `event` came back. `parks` is what
    /// the predicate says of the public bits that were read.
    spec fn park_next(self, event: ParkEvent, parks: bool) -> (Self, ParkAction);

    /// A call that parks returns exactly when the predicate says of public bits just read that the
    /// thread need not be parked. After a wakeup it reads the word again before that.
    proof fn law_return_follows_read(self, event: ParkEvent, parks: bool)
        requires
            self.park_answers(event),
        ensures
            self.park_next(event, parks).1 is Return <==> self.park_reads(event) is Some && !parks,
            event is Woken ==> self.park_reads(event) is None && self.park_next(event, parks).1 is Load,
            self.park_reads(event) matches Some(word) ==> event == ParkEvent::Loaded(word) || event
                == ParkEvent::Swapped(word),
    ;

    /// Loads and stores have orders that they can have.
    proof fn law_orders(self, event: ParkEvent, parks: bool, done: UnparkEvent, new: usize)
        ensures
            self.park_next(event, parks).1 matches ParkAction::Load(order) ==> orders_load(order),
            self.unpark_next(done, new).1 matches UnparkAction::Store { order, .. }
                ==> orders_store(order),
    ;

    /// A call that unparks begins by setting the word to the value that it was given, and does so once. What
    /// the thread wrote before is visible to whoever reads that value.
    proof fn law_unpark_sets_word(self, event: UnparkEvent, new: usize)
        requires
            self.unpark_answers(event),
        ensures
            match unpark_operation(self.unpark_next(event, new).1) {
                Some(operation) => {
                    &&& event is Start
                    &&& forall|found: usize| #[trigger] leaves(operation, found) == new
                    &&& releases(write_order(operation))
                },
                None => !(event is Start),
            },
    ;

    /// A call that parks leaves the public bits of the word alone, whatever it does to the word.
    proof fn law_park_keeps_public_bits(self, event: ParkEvent, parks: bool, found: usize)
        requires
            self.park_answers(event),
            self.park_reads(event) matches Some(word) ==> parks ==> self.park_room(word),
        ensures
            park_operation(self.park_next(event, parks).1) matches Some(operation) ==> public_bits(
                leaves(operation, found),
            ) == public_bits(found),
    ;

    /// Takes in what the last operation of a call that parks gave back, and tells the next one.
    fn park<P>(&mut self, event: ParkEvent, should_park: P) -> (action: ParkAction) where
        P: Fn(usize) -> bool,

        requires
            old(self).park_answers(event),
            old(self).park_reads(event) matches Some(word) ==> should_park.requires(
                (public_bits(word),),
            ),
            old(self).park_reads(event) matches Some(word) ==> should_park.ensures(
                (public_bits(word),),
                true,
            ) ==> old(self).park_room(word),
        ensures
            exists|parks: bool|
                {
                    &&& old(self).park_reads(event) matches Some(word) ==> should_park.ensures(
                        (public_bits(word),),
                        parks,
                    )
                    &&& (*final(self), action) == #[trigger] old(self).park_next(event, parks)
                },
    ;

    /// Whether `event` is a result that the last operation of a call that unparks can have.
    spec fn unpark_answers(self, event: UnparkEvent) -> bool;

    /// How a call that unparks goes on, and its next operation, when `event` came back.
    spec fn unpark_next(self, event: UnparkEvent, new: usize) -> (Self, UnparkAction);

    /// Takes in what the last operation of a call gave back that sets the word to `new` and unparks all
    /// threads, and tells the next one.
    fn store_and_unpark(&mut self, event: UnparkEvent, new: usize) -> (action: UnparkAction)
        requires
            old(self).unpark_answers(event),
        ensures
            (*final(self), action) == old(self).unpark_next(event, new),
    ;
}

} // verus!
