//! The supervisor's timing and sequencing decisions: auto-start, the wait
//! for players to log out before an update restart, and the restart notice.
use crate::proxy::{json_string, json_string_of};
use vstd::prelude::*;
use vstd::string::StringExecFns;

verus! {

/// Seconds a graceful stop may take before the process is killed.
pub const STOP_TIMEOUT_SECS: u64 = 180;

/// Seconds between two update checks.
pub const UPDATE_CHECK_INTERVAL_SECS: u64 = 86400;

/// Seconds to wait for players to log out before the restart notice.
pub const WAIT_UNTIL_ALL_PLAYERS_LOG_OUT_TIMEOUT_SECS: u64 = 3600;

/// Seconds between two player-count polls.
pub const WAIT_FOR_PLAYER_LOGOUT_INTERVAL_SECS: u64 = 60;

/// Minutes between the restart notice and the restart.
pub const NOTIFY_PLAYERS_BEFORE_RESTART_INTERVAL_MINUTES: u64 = 1;

/// Seconds between two readiness probes.
pub const READINESS_PROBE_INTERVAL_SECS: u64 = 1;

/// Seconds a readiness probe may take.
pub const READINESS_PROBE_TIMEOUT_SECS: u64 = 10;

/// Whether a start goes on to launch after the auto-start set was updated:
/// a start from the auto-start worker launches only a server whose manifest
/// asks for auto-start.
pub fn should_launch(manifest_auto_start: bool, from_auto_start: bool) -> (r: bool)
    ensures
        r == (manifest_auto_start || !from_auto_start),
{
    manifest_auto_start || !from_auto_start
}

/// What the update worker does next while waiting for players to leave.
#[derive(Debug, Clone, Copy, PartialEq, Eq, Structural)]
pub enum LogoutWait {
    /// No player is online: restart now.
    RestartNow,
    /// Poll the player count again after this many seconds.
    PollAfter(u64),
    /// The wait timed out: send the notice, wait, then restart.
    NotifyThenRestart,
    /// The server is no longer ready: give up.
    Abort,
}

/// The next step of the wait, from whether the server is ready, the players
/// online by the last ping (`None` where the ping failed or gave no count)
/// and the seconds waited so far.
pub fn logout_wait_step(ready: bool, players_online: Option<u32>, waited_secs: u64) -> (r: LogoutWait)
    ensures
        !ready ==> r == LogoutWait::Abort,
        ready && players_online == Some(0u32) ==> r == LogoutWait::RestartNow,
        ready && players_online != Some(0u32) && waited_secs >= WAIT_UNTIL_ALL_PLAYERS_LOG_OUT_TIMEOUT_SECS ==> r == LogoutWait::NotifyThenRestart,
        ready && players_online != Some(0u32) && waited_secs < WAIT_UNTIL_ALL_PLAYERS_LOG_OUT_TIMEOUT_SECS ==> r == LogoutWait::PollAfter(WAIT_FOR_PLAYER_LOGOUT_INTERVAL_SECS),
{
    if !ready {
        return LogoutWait::Abort;
    }
    match players_online {
        Some(0) => LogoutWait::RestartNow,
        _ => if waited_secs >= WAIT_UNTIL_ALL_PLAYERS_LOG_OUT_TIMEOUT_SECS {
            LogoutWait::NotifyThenRestart
        } else {
            LogoutWait::PollAfter(WAIT_FOR_PLAYER_LOGOUT_INTERVAL_SECS)
        },
    }
}

/// The plain text of the restart notice.
pub open spec fn restart_notice_text() -> Seq<char> {
    "\nServer will restart in 1 minute(s) to apply updates.\nPlease log out to avoid interruption."@
}

/// The JSON text component of the restart notice: a red headline, then the notice.
pub open spec fn restart_notice_json() -> Seq<char> {
    "{\"text\":\"\",\"extra\":[{\"text\":\"=== SERVER RESTART ===\",\"color\":\"red\"},"@ + json_string_of(restart_notice_text()) + "]}"@
}

/// The RCON command that shows the restart notice to every player.
pub fn restart_notice_command() -> (r: String)
    ensures
        r@ == "tellraw @a "@ + restart_notice_json(),
{
    let mut cmd = String::from_str("tellraw @a {\"text\":\"\",\"extra\":[{\"text\":\"=== SERVER RESTART ===\",\"color\":\"red\"},");
    let quoted = json_string("\nServer will restart in 1 minute(s) to apply updates.\nPlease log out to avoid interruption.");
    cmd.append(quoted.as_str());
    cmd.append("]}");
    proof {
        reveal_strlit("tellraw @a ");
        reveal_strlit("{\"text\":\"\",\"extra\":[{\"text\":\"=== SERVER RESTART ===\",\"color\":\"red\"},");
        reveal_strlit("tellraw @a {\"text\":\"\",\"extra\":[{\"text\":\"=== SERVER RESTART ===\",\"color\":\"red\"},");
        assert(cmd@ =~= "tellraw @a "@ + restart_notice_json());
    }
    cmd
}

} // verus!
