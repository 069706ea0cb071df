//! The lifecycle of a running server record: `Starting`, then `Ready` once it
//! answers a server-list ping, then `Stopping`, until its process exits and
//! the record is removed.
use vstd::prelude::*;

verus! {

/// The status of a running server.
#[derive(Debug, Clone, Copy, PartialEq, Eq, Structural)]
pub enum ServerStatus {
    Starting { restarting: bool },
    Ready,
    Stopping { restarting: bool },
    /// Only what waiters for termination see: the record is removed as its
    /// process exits.
    Stopped,
}

/// How far along its lifecycle a status lies.
pub open spec fn status_rank(s: ServerStatus) -> nat {
    match s {
        ServerStatus::Starting { .. } => 0,
        ServerStatus::Ready => 1,
        ServerStatus::Stopping { .. } => 2,
        ServerStatus::Stopped => 3,
    }
}

/// The steps a record's status may take: it stays, becomes `Ready` only from
/// `Starting`, becomes `Stopping` from any status but `Stopped`, or becomes
/// `Stopped` as the process exits.
pub open spec fn status_step(from: ServerStatus, to: ServerStatus) -> bool {
    ||| to == from
    ||| (from is Starting && to is Ready)
    ||| (!(from is Stopped) && to is Stopping)
    ||| to is Stopped
}

/// The status after the readiness probe succeeded.
pub open spec fn ready_status(s: ServerStatus) -> ServerStatus {
    if s is Starting {
        ServerStatus::Ready
    } else {
        s
    }
}

/// The status after a stop (or restart) was requested.
pub open spec fn stopping_status(s: ServerStatus, restarting: bool) -> ServerStatus {
    if s is Stopped {
        s
    } else {
        ServerStatus::Stopping { restarting }
    }
}

/// The status after the server was killed.
pub open spec fn killed_status(s: ServerStatus) -> ServerStatus {
    stopping_status(s, false)
}

/// Marks a server ready; only a starting server becomes ready.
pub fn mark_ready(s: ServerStatus) -> (r: ServerStatus)
    ensures
        r == ready_status(s),
{
    match s {
        ServerStatus::Starting { .. } => ServerStatus::Ready,
        _ => s,
    }
}

/// Marks a server as stopping, for a restart or not.
pub fn mark_stopping(s: ServerStatus, restarting: bool) -> (r: ServerStatus)
    ensures
        r == stopping_status(s, restarting),
{
    match s {
        ServerStatus::Stopped => s,
        _ => ServerStatus::Stopping { restarting },
    }
}

/// Marks a server as stopping because it is being killed.
pub fn mark_killed(s: ServerStatus) -> (r: ServerStatus)
    ensures
        r == killed_status(s),
{
    mark_stopping(s, false)
}

/// Every transition a record's status takes is a lifecycle step, and none
/// moves it backwards: a `Ready` or `Stopping` server never becomes
/// `Starting` again.
pub proof fn lemma_status_transitions(s: ServerStatus, restarting: bool)
    ensures
        status_step(s, ready_status(s)),
        status_step(s, stopping_status(s, restarting)),
        status_step(s, killed_status(s)),
        status_step(s, ServerStatus::Stopped),
        status_rank(s) <= status_rank(ready_status(s)),
        status_rank(s) <= status_rank(stopping_status(s, restarting)),
        status_rank(s) <= status_rank(ServerStatus::Stopped),
{
}

/// A lifecycle step never leads back to `Starting` from another status.
pub proof fn lemma_no_return_to_starting(from: ServerStatus, to: ServerStatus)
    requires
        status_step(from, to),
        !(from is Starting),
    ensures
        !(to is Starting),
{
}

/// Whether a server whose process has exited is started again: it failed,
/// it asks to be restarted on failure, and it had become ready.
pub open spec fn restart_after_exit_spec(exit_success: bool, restart_on_failure: bool, last: ServerStatus) -> bool {
    !exit_success && restart_on_failure && last == ServerStatus::Ready
}

/// Decides whether to start a server again after its process exited.
pub fn should_restart_after_exit(exit_success: bool, restart_on_failure: bool, last: ServerStatus) -> (r: bool)
    ensures
        r == restart_after_exit_spec(exit_success, restart_on_failure, last),
{
    !exit_success && restart_on_failure && last == ServerStatus::Ready
}

} // verus!
