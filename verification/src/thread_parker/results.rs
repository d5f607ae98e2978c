//! Which results the platforms' calls are expected to have. Anything else is a mistake in the call.

use vstd::prelude::*;

verus! {

/// The error numbers of a platform.
#[derive(Clone, Copy, Debug, PartialEq, Eq, Structural)]
pub struct ErrorCodes {
    /// The call was interrupted by a signal.
    pub eintr: i32,
    /// The word was not the one compared with.
    pub eagain: i32,
    /// The time was over.
    pub etimedout: i32,
    /// The address was not one of this program's.
    pub efault: i32,
    /// The argument was not valid.
    pub einval: i32,
}

/// Whether Linux may answer a wait on a futex like this. `errno` is the error number, if `r` is -1;
/// `timed` tells whether the wait had a limit.
pub fn futex_wait_expected(r: i64, errno: i32, timed: bool, codes: ErrorCodes) -> (expected: bool)
    ensures
        expected == (r == 0 || (r == -1 && (errno == codes.eintr || errno == codes.eagain || (timed
            && errno == codes.etimedout)))),
{
    if r == -1 {
        errno == codes.eintr || errno == codes.eagain || (timed && errno == codes.etimedout)
    } else {
        r == 0
    }
}

/// Whether Linux may answer like this when asked to wake up to `max_threads_to_wake` threads.
pub fn futex_wake_expected(
    r: i64,
    errno: i32,
    max_threads_to_wake: i32,
    codes: ErrorCodes,
) -> (expected: bool)
    ensures
        expected == (0 <= r <= max_threads_to_wake || (r == -1 && errno == codes.efault)),
{
    if r == -1 {
        errno == codes.efault
    } else {
        r >= 0 && r <= max_threads_to_wake as i64
    }
}

/// Whether FreeBSD may answer a wait or a wake like this.
pub fn umtx_expected(r: i32) -> (expected: bool)
    ensures
        expected == (r == 0 || r == -1),
{
    r == 0 || r == -1
}

/// Whether Redox may answer a wait on a futex like this: with a number, or with an error number.
pub fn redox_wait_expected(r: Result<usize, i32>, codes: ErrorCodes) -> (expected: bool)
    ensures
        expected == (match r {
            Ok(n) => n == 0,
            Err(errno) => errno == codes.eintr || errno == codes.eagain || errno
                == codes.etimedout,
        }),
{
    match r {
        Ok(n) => n == 0,
        Err(errno) => errno == codes.eintr || errno == codes.eagain || errno == codes.etimedout,
    }
}

/// Whether Redox may answer like this when asked to wake up to `max_threads_to_wake` threads.
pub fn redox_wake_expected(
    r: Result<usize, i32>,
    max_threads_to_wake: usize,
    codes: ErrorCodes,
) -> (expected: bool)
    ensures
        expected == (match r {
            Ok(num_woken) => num_woken <= max_threads_to_wake,
            Err(errno) => errno == codes.efault,
        }),
{
    match r {
        Ok(num_woken) => num_woken <= max_threads_to_wake,
        Err(errno) => errno == codes.efault,
    }
}

/// Whether WebAssembly may answer a wait like this: the thread was woken, did not block, or its time
/// was over.
pub fn wasm_wait_expected(r: i32) -> (expected: bool)
    ensures
        expected == (0 <= r <= 2),
{
    r == 0 || r == 1 || r == 2
}

/// Whether Windows may answer a wait on an address without a limit like this.
pub fn wait_on_address_expected(r: i32) -> (expected: bool)
    ensures
        expected == (r == 1),
{
    r == 1
}

/// Whether a call on a POSIX mutex or condition variable may answer like this.
pub fn pthread_expected(r: i32) -> (expected: bool)
    ensures
        expected == (r == 0),
{
    r == 0
}

/// Whether destroying a POSIX mutex or condition variable may answer like this. DragonFly refuses to
/// destroy one that was never used.
pub fn pthread_destroy_expected(r: i32, dragonfly: bool, codes: ErrorCodes) -> (expected: bool)
    ensures
        expected == (r == 0 || (dragonfly && r == codes.einval)),
{
    r == 0 || (dragonfly && r == codes.einval)
}

} // verus!
