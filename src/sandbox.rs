//! Decisions of the execution sandbox's wait loop: the caller polls the
//! child process and asks, after each poll, what to do next.
use vstd::prelude::*;

verus! {

/// Longest pause between two polls of a running child, in milliseconds.
pub const POLL_INTERVAL_MS: u64 = 10;

/// What the wait loop does after a poll.
#[derive(Clone, Copy, Debug, PartialEq, Eq, Structural)]
pub enum WaitAction {
    /// The child has exited: collect its output and exit status.
    Collect,
    /// The deadline has passed: kill the child and its descendants.
    Terminate,
    /// Sleep this many milliseconds, then poll again.
    Sleep { ms: u64 },
}

/// The action owed after a poll that found the child `exited` or not, at
/// `elapsed_ms` after spawn, under a deadline of `time_limit_ms`.
pub open spec fn wait_action_for(exited: bool, elapsed_ms: u64, time_limit_ms: u64) -> WaitAction {
    if exited {
        WaitAction::Collect
    } else if elapsed_ms >= time_limit_ms {
        WaitAction::Terminate
    } else if time_limit_ms - elapsed_ms < POLL_INTERVAL_MS {
        WaitAction::Sleep { ms: (time_limit_ms - elapsed_ms) as u64 }
    } else {
        WaitAction::Sleep { ms: POLL_INTERVAL_MS }
    }
}

/// Decides the next step of the wait loop. A sleep never overshoots the
/// deadline and is never zero, so the loop reaches the deadline.
pub fn next_wait_action(exited: bool, elapsed_ms: u64, time_limit_ms: u64) -> (r: WaitAction)
    ensures
        r == wait_action_for(exited, elapsed_ms, time_limit_ms),
        r matches WaitAction::Sleep { ms } ==> 0 < ms && elapsed_ms + ms <= time_limit_ms,
{
    if exited {
        WaitAction::Collect
    } else if elapsed_ms >= time_limit_ms {
        WaitAction::Terminate
    } else if time_limit_ms - elapsed_ms < POLL_INTERVAL_MS {
        WaitAction::Sleep { ms: time_limit_ms - elapsed_ms }
    } else {
        WaitAction::Sleep { ms: POLL_INTERVAL_MS }
    }
}

} // verus!
