//! Decisions of the handshake-aware reverse proxy: where a connection goes,
//! what a client is told when its server cannot serve it, and the short
//! status exchange that answers a server-list ping in that case.
use crate::packet::{Packet, PacketView, ProtocolState};
use crate::status::ServerStatus;
use vstd::prelude::*;
use vstd::string::{StrSliceExecFns, StringExecFns};

verus! {

/// A lowercase hexadecimal digit.
pub open spec fn hex_char(d: nat) -> char {
    if d < 10 {
        (48 + d) as char
    } else {
        (87 + d) as char
    }
}

/// How one character stands inside a JSON string: quote and backslash
/// escaped, the usual short escapes, other control characters as
/// `\u00XX`, everything else as itself.
pub open spec fn json_escape_char(c: char) -> Seq<char> {
    if c == '"' {
        seq!['\\', '"']
    } else if c == '\\' {
        seq!['\\', '\\']
    } else if c == '\u{8}' {
        seq!['\\', 'b']
    } else if c == '\u{c}' {
        seq!['\\', 'f']
    } else if c == '\n' {
        seq!['\\', 'n']
    } else if c == '\r' {
        seq!['\\', 'r']
    } else if c == '\t' {
        seq!['\\', 't']
    } else if (c as u32) < 0x20 {
        seq!['\\', 'u', '0', '0', hex_char((c as u32 / 16) as nat), hex_char((c as u32 % 16) as nat)]
    } else {
        seq![c]
    }
}

/// The escaped characters of `s`.
pub open spec fn json_escaped(s: Seq<char>) -> Seq<char>
    decreases s.len(),
{
    if s.len() == 0 {
        Seq::empty()
    } else {
        json_escaped(s.drop_last()) + json_escape_char(s.last())
    }
}

/// The JSON string literal for `s`.
pub open spec fn json_string_of(s: Seq<char>) -> Seq<char> {
    seq!['"'] + json_escaped(s) + seq!['"']
}

fn hex_digit_str(d: u32) -> (r: &'static str)
    requires
        d < 16,
    ensures
        r@ == seq![hex_char(d as nat)],
{
    proof {
        reveal_strlit("0");
        reveal_strlit("1");
        reveal_strlit("2");
        reveal_strlit("3");
        reveal_strlit("4");
        reveal_strlit("5");
        reveal_strlit("6");
        reveal_strlit("7");
        reveal_strlit("8");
        reveal_strlit("9");
        reveal_strlit("a");
        reveal_strlit("b");
        reveal_strlit("c");
        reveal_strlit("d");
        reveal_strlit("e");
        reveal_strlit("f");
    }
    match d {
        0 => "0",
        1 => "1",
        2 => "2",
        3 => "3",
        4 => "4",
        5 => "5",
        6 => "6",
        7 => "7",
        8 => "8",
        9 => "9",
        10 => "a",
        11 => "b",
        12 => "c",
        13 => "d",
        14 => "e",
        _ => "f",
    }
}

fn push_escaped_char(out: &mut String, s: &str, i: usize)
    requires
        i < s@.len(),
    ensures
        final(out)@ == old(out)@ + json_escape_char(s@[i as int]),
{
    let n = s.unicode_len();
    let c = s.get_char(i);
    proof {
        reveal_strlit("\\\"");
        reveal_strlit("\\\\");
        reveal_strlit("\\b");
        reveal_strlit("\\f");
        reveal_strlit("\\n");
        reveal_strlit("\\r");
        reveal_strlit("\\t");
        reveal_strlit("\\u00");
    }
    if c == '"' {
        out.append("\\\"");
    } else if c == '\\' {
        out.append("\\\\");
    } else if c == '\u{8}' {
        out.append("\\b");
    } else if c == '\u{c}' {
        out.append("\\f");
    } else if c == '\n' {
        out.append("\\n");
    } else if c == '\r' {
        out.append("\\r");
    } else if c == '\t' {
        out.append("\\t");
    } else if (c as u32) < 0x20 {
        out.append("\\u00");
        out.append(hex_digit_str(c as u32 / 16));
        out.append(hex_digit_str(c as u32 % 16));
    } else {
        out.append(s.substring_char(i, i + 1));
    }
    assert(out@ =~= old(out)@ + json_escape_char(s@[i as int]));
}

/// The JSON string literal for `s`, as serde_json writes it.
pub fn json_string(s: &str) -> (r: String)
    ensures
        r@ == json_string_of(s@),
{
    let n = s.unicode_len();
    let mut out = String::from_str("\"");
    proof {
        reveal_strlit("\"");
    }
    let mut i: usize = 0;
    assert(s@.take(0) =~= Seq::<char>::empty());
    while i < n
        invariant
            n == s@.len(),
            i <= n,
            out@ == seq!['"'] + json_escaped(s@.take(i as int)),
        decreases n - i,
    {
        push_escaped_char(&mut out, s, i);
        assert(s@.take(i + 1).drop_last() =~= s@.take(i as int));
        assert(s@.take(i + 1).last() == s@[i as int]);
        i = i + 1;
    }
    assert(s@.take(n as int) =~= s@);
    out.append("\"");
    assert(out@ =~= json_string_of(s@));
    out
}

/// Why a connection cannot be served, from the status of the server its
/// handshake names (`None` where no such server runs); `None` when it can.
pub open spec fn refusal_reason(status: Option<ServerStatus>) -> Option<Seq<char>> {
    match status {
        Some(ServerStatus::Ready) => None,
        Some(ServerStatus::Starting { restarting: false }) => Some(
            "Server is starting up, please try again later"@,
        ),
        Some(ServerStatus::Stopping { restarting: false }) => Some("Server is stopping."@),
        Some(ServerStatus::Starting { restarting: true }) | Some(
            ServerStatus::Stopping { restarting: true },
        ) => Some("Server is restarting, please try again later"@),
        _ => Some("Server is not running or does not exist"@),
    }
}

/// The reason a connection to a server in `status` is refused, if it is.
pub fn refusal_message(status: Option<ServerStatus>) -> (r: Option<String>)
    ensures
        match r {
            Some(m) => refusal_reason(status) == Some(m@),
            None => refusal_reason(status) is None,
        },
{
    match status {
        Some(ServerStatus::Ready) => None,
        Some(ServerStatus::Starting { restarting: false }) => Some(
            String::from_str("Server is starting up, please try again later"),
        ),
        Some(ServerStatus::Stopping { restarting: false }) => Some(
            String::from_str("Server is stopping."),
        ),
        Some(ServerStatus::Starting { restarting: true }) | Some(
            ServerStatus::Stopping { restarting: true },
        ) => Some(String::from_str("Server is restarting, please try again later")),
        _ => Some(String::from_str("Server is not running or does not exist")),
    }
}

/// The JSON text of a status response whose description is `reason`.
pub open spec fn status_json(reason: Seq<char>) -> Seq<char> {
    "{\"version\":{\"name\":\"\",\"protocol\":0},\"description\":"@ + json_string_of(reason) + "}"@
}

/// Builds the status response that shows `reason` in a launcher's server list.
pub fn status_response_for(reason: &str) -> (r: Packet)
    ensures
        r@ == (PacketView::StatusResponse { json_response: status_json(reason@) }),
{
    let mut json = String::from_str("{\"version\":{\"name\":\"\",\"protocol\":0},\"description\":");
    let quoted = json_string(reason);
    json.append(quoted.as_str());
    json.append("}");
    Packet::StatusResponse { json_response: json }
}

/// Builds the Login-state disconnect packet whose reason is the plain text `reason`.
pub fn disconnect_for(reason: &str) -> (r: Packet)
    ensures
        r@ == (PacketView::Disconnect { reason: json_string_of(reason@) }),
{
    Packet::Disconnect { reason: json_string(reason) }
}

/// What the proxy does with a connection after its handshake.
#[derive(Debug)]
pub enum ProxyAction {
    /// Forward the handshake bytes unchanged to the backend on this local
    /// port, then splice the two streams.
    Forward { server_port: u16 },
    /// Send this packet and close.
    Disconnect { packet: Packet },
    /// Answer one status request and one ping with this reason, then close.
    FallbackStatus { reason: String },
}

/// Decides what to do with a connection whose handshake asks for `intent`,
/// given the status and port of the server it names (`None` where no server
/// runs under that hostname).
pub fn decide_route(intent: ProtocolState, target: Option<(ServerStatus, u16)>) -> (r: ProxyAction)
    ensures
        ({
            let status = match target {
                Some((s, _)) => Some(s),
                None => None,
            };
            match refusal_reason(status) {
                None => target matches Some((_, port)) && r == (ProxyAction::Forward {
                    server_port: port,
                }),
                Some(reason) => if intent == ProtocolState::Status {
                    r matches ProxyAction::FallbackStatus { reason: m } && m@ == reason
                } else {
                    r matches ProxyAction::Disconnect { packet } && packet@ == (PacketView::Disconnect {
                        reason: json_string_of(reason),
                    })
                },
            }
        }),
{
    let status = match target {
        Some((s, _)) => Some(s),
        None => None,
    };
    match refusal_message(status) {
        None => {
            match target {
                Some((_, port)) => ProxyAction::Forward { server_port: port },
                None => {
                    assert(false);
                    ProxyAction::Forward { server_port: 0 }
                },
            }
        },
        Some(reason) => {
            if intent == ProtocolState::Status {
                ProxyAction::FallbackStatus { reason }
            } else {
                ProxyAction::Disconnect { packet: disconnect_for(reason.as_str()) }
            }
        },
    }
}

/// Where the fallback status exchange stands.
#[derive(Debug, Clone, Copy, PartialEq, Eq, Structural)]
pub enum FallbackState {
    AwaitStatusRequest,
    AwaitPingRequest,
    Closed,
}

/// The next state of the fallback exchange after `p` arrives, and the reply.
pub open spec fn fallback_next(state: FallbackState, p: PacketView, reason: Seq<char>) -> (
    FallbackState,
    Option<PacketView>,
) {
    match (state, p) {
        (FallbackState::AwaitStatusRequest, PacketView::StatusRequest) => (
            FallbackState::AwaitPingRequest,
            Some(PacketView::StatusResponse { json_response: status_json(reason) }),
        ),
        (FallbackState::AwaitPingRequest, PacketView::PingRequest { timestamp }) => (
            FallbackState::Closed,
            Some(PacketView::PongResponse { timestamp }),
        ),
        _ => (FallbackState::Closed, None),
    }
}

/// One step of the fallback exchange: the state after `packet` and the reply to send.
pub fn fallback_step(state: FallbackState, packet: &Packet, reason: &str) -> (r: (FallbackState, Option<Packet>))
    ensures
        r.0 == fallback_next(state, packet@, reason@).0,
        match r.1 {
            Some(reply) => fallback_next(state, packet@, reason@).1 == Some(reply@),
            None => fallback_next(state, packet@, reason@).1 is None,
        },
{
    match (state, packet) {
        (FallbackState::AwaitStatusRequest, Packet::StatusRequest) => (
            FallbackState::AwaitPingRequest,
            Some(status_response_for(reason)),
        ),
        (FallbackState::AwaitPingRequest, Packet::PingRequest { timestamp }) => (
            FallbackState::Closed,
            Some(Packet::PongResponse { timestamp: *timestamp }),
        ),
        _ => (FallbackState::Closed, None),
    }
}

/// The fallback exchange answers a status request with the reason, then a
/// ping with its own timestamp, and is then closed: whatever arrives after
/// the ping gets no reply; any other opening also closes it without reply.
pub proof fn lemma_fallback_exchange(reason: Seq<char>, timestamp: i64, third: PacketView, other: PacketView)
    requires
        !(other is StatusRequest),
    ensures
        fallback_next(FallbackState::AwaitStatusRequest, PacketView::StatusRequest, reason) == (
            FallbackState::AwaitPingRequest,
            Some(PacketView::StatusResponse { json_response: status_json(reason) }),
        ),
        fallback_next(FallbackState::AwaitPingRequest, PacketView::PingRequest { timestamp }, reason)
            == (FallbackState::Closed, Some(PacketView::PongResponse { timestamp })),
        fallback_next(FallbackState::Closed, third, reason) == (FallbackState::Closed, None::<PacketView>),
        fallback_next(FallbackState::AwaitStatusRequest, other, reason) == (FallbackState::Closed, None::<PacketView>),
{
}

} // verus!
