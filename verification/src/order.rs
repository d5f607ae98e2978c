//! Memory orders, as the decisions of this crate name them.

use vstd::prelude::*;

verus! {

/// The memory order of one atomic operation.
#[derive(Clone, Copy, Debug, PartialEq, Eq, Structural)]
pub enum Order {
    Relaxed,
    Acquire,
    Release,
    AcqRel,
    SeqCst,
}

/// Whether what a thread wrote before an operation of this order is visible to whoever reads what the
/// operation wrote, in an order that acquires.
pub open spec fn releases(order: Order) -> bool {
    order is Release || order is AcqRel || order is SeqCst
}

/// Whether what was written before is visible to a thread that reads, in this order, what an operation wrote
/// that releases.
pub open spec fn acquires(order: Order) -> bool {
    order is Acquire || order is AcqRel || order is SeqCst
}

} // verus!
