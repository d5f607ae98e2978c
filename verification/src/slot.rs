//! The slot that holds a cell's value.

use vstd::prelude::*;

verus! {

/// Puts what an initializer returned into the slot of a cell. The slot changes only on success.
pub fn fill<T, E>(slot: &mut Option<T>, outcome: Result<T, E>) -> (result: Result<(), E>)
    ensures
        match outcome {
            Ok(value) => result == Ok::<(), E>(()) && *final(slot) == Some(value),
            Err(error) => result == Err::<(), E>(error) && *final(slot) == *old(slot),
        },
{
    match outcome {
        Ok(value) => {
            *slot = Some(value);
            Ok(())
        },
        Err(error) => Err(error),
    }
}

} // verus!
