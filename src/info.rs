//! What "get running servers" reports of each server.
use crate::status::ServerStatus;
use vstd::prelude::*;

verus! {

/// The players a server reports.
#[derive(Debug, Clone, Copy, PartialEq, Eq, Structural)]
pub struct PlayersInfo {
    pub online: u32,
    pub max: u32,
}

/// One running server as reported to a control client.
#[derive(Debug, Clone)]
pub struct RunningServerInfo {
    pub server_dir: String,
    pub name: String,
    pub status: ServerStatus,
    pub server_port: u16,
    pub players: Option<PlayersInfo>,
    pub uptime_secs: u64,
}

/// The player counts reported for a server: only a ready server is pinged,
/// and only a ping that gave `(online, max)` yields counts.
pub fn players_info(status: ServerStatus, ping: Option<(i32, i32)>) -> (r: Option<PlayersInfo>)
    ensures
        status != ServerStatus::Ready ==> r is None,
        status == ServerStatus::Ready ==> match ping {
            Some((online, max)) => r == Some(PlayersInfo { online: online as u32, max: max as u32 }),
            None => r is None,
        },
{
    match status {
        ServerStatus::Ready => match ping {
            Some((online, max)) => Some(PlayersInfo {
                online: #[verifier::truncate] (online as u32),
                max: #[verifier::truncate] (max as u32),
            }),
            None => None,
        },
        _ => None,
    }
}

} // verus!
