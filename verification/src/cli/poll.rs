//! How long commands wait for something to come about.

use vstd::prelude::*;

verus! {

/// How often it is looked whether the instances of a project are gone.
pub const PROJECT_STOP_TRIES: u64 = 150;

/// How often it is looked whether the daemon and its instances are gone.
pub const DAEMON_STOP_TRIES: u64 = 80;

/// How often it is looked whether processes that were asked to end are gone.
pub const PROCESS_END_TRIES: u64 = 20;

/// How often it is looked whether a command that is to be ended has started.
pub const PROCESS_START_TRIES: u64 = 10;

/// How often it is looked whether a daemon that was started answers.
pub const DAEMON_START_TRIES: u64 = 40;

/// How often it is looked whether the daemon of a service that was started answers.
pub const SERVICE_START_TRIES: u64 = 80;

/// How often it is looked whether the daemon of a service that was stopped is gone.
pub const SERVICE_STOP_TRIES: u64 = 40;

/// What comes next while something is waited for.
#[derive(Debug, Clone, Copy, PartialEq, Eq, Structural)]
pub enum PollStep {
    /// It came about.
    Done,
    /// It is looked again, after a pause.
    Again,
    /// It was waited for long enough.
    GaveUp,
}

/// What comes next, given how often it was looked, or for how many seconds, how much of
/// that is allowed, and whether what is waited for came about.
pub fn poll_step(tries: u64, limit: u64, met: bool) -> (r: PollStep)
    ensures
        r == (if met {
            PollStep::Done
        } else if tries >= limit {
            PollStep::GaveUp
        } else {
            PollStep::Again
        }),
{
    if met {
        PollStep::Done
    } else if tries >= limit {
        PollStep::GaveUp
    } else {
        PollStep::Again
    }
}

} // verus!
