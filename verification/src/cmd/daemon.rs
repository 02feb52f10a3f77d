//! What a process in the background and the one that started it decide.

use vstd::prelude::*;

verus! {

/// How long to wait before looking again, in milliseconds.
pub const POLL_MS: u64 = 50;

/// Whether to go on waiting for a process to be ready: `Some` says that the
/// waiting is over, and whether it is ready.
pub open spec fn readiness(
    ready: bool,
    finished: bool,
    elapsed_ms: u64,
    timeout_ms: u64,
) -> Option<bool> {
    if ready {
        Some(true)
    } else if finished || elapsed_ms >= timeout_ms {
        Some(false)
    } else {
        None
    }
}

/// Whether to go on waiting for a process to be ready.
pub fn check_ready(ready: bool, finished: bool, elapsed_ms: u64, timeout_ms: u64) -> (r: Option<
    bool,
>)
    ensures
        r == readiness(ready, finished, elapsed_ms, timeout_ms),
{
    if ready {
        Some(true)
    } else if finished || elapsed_ms >= timeout_ms {
        Some(false)
    } else {
        None
    }
}

/// The byte that tells the parent how it went.
pub open spec fn signal_byte(success: bool) -> u8 {
    if success {
        0
    } else {
        1
    }
}

/// What the parent makes of the bytes that have come, if one has.
pub open spec fn heard(byte: Option<u8>) -> bool {
    byte == Some(0u8)
}

/// The byte that tells the parent how it went.
pub fn signal_parent(success: bool) -> (r: u8)
    ensures
        r == signal_byte(success),
{
    if success {
        0
    } else {
        1
    }
}

/// What the parent makes of the byte that has come, if one has.
pub fn wait_for_signal(byte: Option<u8>) -> (r: bool)
    ensures
        r == heard(byte),
{
    match byte {
        Some(b) => b == 0,
        None => false,
    }
}

/// The exit code of the process in the background: it was not ready, or it has
/// ended, well or not.
pub fn exit_code(ready: bool, ended_well: bool) -> (r: i32)
    ensures
        r == (if ready && ended_well {
            0i32
        } else {
            1i32
        }),
{
    if ready && ended_well {
        0
    } else {
        1
    }
}

/// The parent hears what the child has told; silence counts as failure.
pub proof fn law_parent_hears_the_child(success: bool)
    ensures
        heard(Some(signal_byte(success))) == success,
        !heard(None),
{
}

/// Waiting ends at the latest when the time is up.
pub proof fn law_waiting_ends(ready: bool, finished: bool, elapsed_ms: u64, timeout_ms: u64)
    requires
        elapsed_ms >= timeout_ms,
    ensures
        readiness(ready, finished, elapsed_ms, timeout_ms) == Some(ready),
{
}

/// Waiting ends well as soon as the process is ready, and badly as soon as it has ended
/// without; until then, and until the time is up, it goes on.
pub proof fn law_waiting_goes_on(ready: bool, finished: bool, elapsed_ms: u64, timeout_ms: u64)
    ensures
        ready ==> readiness(ready, finished, elapsed_ms, timeout_ms) == Some(true),
        !ready && finished ==> readiness(ready, finished, elapsed_ms, timeout_ms) == Some(false),
        !ready && !finished && elapsed_ms < timeout_ms ==> readiness(
            ready,
            finished,
            elapsed_ms,
            timeout_ms,
        ) is None,
{
}

} // verus!
