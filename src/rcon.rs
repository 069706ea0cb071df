//! The RCON wire format (`[i32 LE length][i32 LE id][i32 LE type][body][0 0]`,
//! the length counting all after itself) and the decisions of the RCON
//! client and of the graceful-stop retry policy.
use crate::wire::append_bytes;
use vstd::prelude::*;
use vstd::slice::{slice_subrange, slice_to_vec};
use vstd::string::{StringExecFns, StringSliceAdditionalSpecFns};

verus! {

/// The type of an authentication request.
pub const SERVERDATA_AUTH: i32 = 3;

/// The type of an authentication response.
pub const SERVERDATA_AUTH_RESPONSE: i32 = 2;

/// The type of a command request.
pub const SERVERDATA_EXECCOMMAND: i32 = 2;

/// The type of a command response.
pub const SERVERDATA_RESPONSE_VALUE: i32 = 0;

/// How many times a failed stop request is tried again.
pub const REQUEST_STOP_RETRY_LIMIT: usize = 5;

/// Seconds between two stop requests.
pub const REQUEST_STOP_RETRY_INTERVAL_SECS: u64 = 10;

/// One RCON packet.
#[derive(Debug, Clone)]
pub struct RconPacket {
    pub id: i32,
    pub type_: i32,
    pub body: Vec<u8>,
}

/// Why bytes could not be read as an RCON packet.
#[derive(Debug, Clone, Copy, PartialEq, Eq, Structural)]
pub enum RconError {
    /// More bytes are needed.
    Incomplete,
    /// The length field is below the ten bytes that id, type and terminator take.
    InvalidLength,
    /// The body is not followed by two zero bytes.
    InvalidTermination,
}

/// Little-endian bytes of an `i32`.
pub open spec fn i32_le(x: i32) -> Seq<u8> {
    let u = x as u32;
    seq![u as u8, (u >> 8u32) as u8, (u >> 16u32) as u8, (u >> 24u32) as u8]
}

/// The `i32` that four little-endian bytes spell.
pub open spec fn i32_of_le(b: Seq<u8>, at: int) -> i32 {
    ((b[at] as u32) | ((b[at + 1] as u32) << 8u32) | ((b[at + 2] as u32) << 16u32) | ((b[at + 3]
        as u32) << 24u32)) as i32
}

/// The bytes of a packet.
pub open spec fn rcon_bytes(id: i32, type_: i32, body: Seq<u8>) -> Seq<u8> {
    i32_le((body.len() + 10) as i32) + i32_le(id) + i32_le(type_) + body + seq![0u8, 0u8]
}

/// The packet at the front of `b` and the bytes it takes.
pub open spec fn parse_rcon(b: Seq<u8>) -> Result<(i32, i32, Seq<u8>, nat), RconError> {
    if b.len() < 12 {
        Err(RconError::Incomplete)
    } else {
        let len = i32_of_le(b, 0);
        if len < 10 {
            Err(RconError::InvalidLength)
        } else if b.len() < 4 + len {
            Err(RconError::Incomplete)
        } else if b[2 + len] != 0 || b[3 + len] != 0 {
            Err(RconError::InvalidTermination)
        } else {
            Ok((i32_of_le(b, 4), i32_of_le(b, 8), b.subrange(12, 2 + len), (4 + len) as nat))
        }
    }
}

proof fn lemma_i32_le(x: i32, b: Seq<u8>, at: int)
    requires
        0 <= at,
        at + 4 <= b.len(),
        b.subrange(at, at + 4) == i32_le(x),
    ensures
        i32_of_le(b, at) == x,
{
    let u = x as u32;
    assert(b[at] == b.subrange(at, at + 4)[0]);
    assert(b[at + 1] == b.subrange(at, at + 4)[1]);
    assert(b[at + 2] == b.subrange(at, at + 4)[2]);
    assert(b[at + 3] == b.subrange(at, at + 4)[3]);
    assert(((u as u8 as u32) | (((u >> 8u32) as u8 as u32) << 8u32) | (((u >> 16u32) as u8 as u32)
        << 16u32) | (((u >> 24u32) as u8 as u32) << 24u32)) == u) by (bit_vector);
    assert((u as i32) == x) by (bit_vector)
        requires
            u == x as u32,
    ;
}

/// A packet read back from its own bytes, followed by anything, is the
/// packet written.
pub proof fn lemma_rcon_round_trip(id: i32, type_: i32, body: Seq<u8>, rest: Seq<u8>)
    requires
        body.len() + 10 <= i32::MAX,
    ensures
        parse_rcon(rcon_bytes(id, type_, body) + rest) == Ok::<(i32, i32, Seq<u8>, nat), RconError>(
            (id, type_, body, rcon_bytes(id, type_, body).len()),
        ),
{
    let len = (body.len() + 10) as i32;
    let b = rcon_bytes(id, type_, body) + rest;
    assert(b.subrange(0, 4) =~= i32_le(len));
    assert(b.subrange(4, 8) =~= i32_le(id));
    assert(b.subrange(8, 12) =~= i32_le(type_));
    lemma_i32_le(len, b, 0);
    lemma_i32_le(id, b, 4);
    lemma_i32_le(type_, b, 8);
    assert(b.subrange(12, 2 + len) =~= body);
    assert(b[2 + len] == 0 && b[3 + len] == 0);
}

fn push_i32_le(out: &mut Vec<u8>, x: i32)
    ensures
        final(out)@ == old(out)@ + i32_le(x),
{
    #[verifier::truncate]
    let u: u32 = x as u32;
    out.push(#[verifier::truncate] (u as u8));
    out.push(#[verifier::truncate] ((u >> 8u32) as u8));
    out.push(#[verifier::truncate] ((u >> 16u32) as u8));
    out.push(#[verifier::truncate] ((u >> 24u32) as u8));
    assert(out@ =~= old(out)@ + i32_le(x));
}

fn read_i32_le(b: &[u8], at: usize) -> (r: i32)
    requires
        at + 4 <= b@.len(),
    ensures
        r == i32_of_le(b@, at as int),
{
    let u: u32 = (b[at] as u32) | ((b[at + 1] as u32) << 8u32) | ((b[at + 2] as u32) << 16u32) | ((
    b[at + 3] as u32) << 24u32);
    #[verifier::truncate]
    (u as i32)
}

impl RconPacket {
    /// The bytes of this packet.
    pub fn encode(&self) -> (r: Vec<u8>)
        requires
            self.body@.len() + 10 <= i32::MAX,
        ensures
            r@ == rcon_bytes(self.id, self.type_, self.body@),
    {
        let mut out: Vec<u8> = Vec::new();
        push_i32_le(&mut out, (self.body.len() + 10) as i32);
        push_i32_le(&mut out, self.id);
        push_i32_le(&mut out, self.type_);
        append_bytes(&mut out, self.body.as_slice());
        out.push(0);
        out.push(0);
        assert(out@ =~= rcon_bytes(self.id, self.type_, self.body@));
        out
    }

    /// Reads the packet at the front of `b`; gives it and the bytes it took.
    pub fn decode(b: &[u8]) -> (r: Result<(RconPacket, usize), RconError>)
        ensures
            match r {
                Ok((p, n)) => parse_rcon(b@) == Ok::<(i32, i32, Seq<u8>, nat), RconError>((p.id, p.type_, p.body@, n as nat)),
                Err(e) => parse_rcon(b@) == Err::<(i32, i32, Seq<u8>, nat), RconError>(e),
            },
    {
        if b.len() < 12 {
            return Err(RconError::Incomplete);
        }
        let len = read_i32_le(b, 0);
        if len < 10 {
            return Err(RconError::InvalidLength);
        }
        let total = len as usize;
        if b.len() - 4 < total {
            return Err(RconError::Incomplete);
        }
        if b[2 + total] != 0 || b[3 + total] != 0 {
            return Err(RconError::InvalidTermination);
        }
        let id = read_i32_le(b, 4);
        let type_ = read_i32_le(b, 8);
        let body = slice_to_vec(slice_subrange(b, 12, 2 + total));
        Ok((RconPacket { id, type_, body }, 4 + total))
    }
}

/// The authentication request that carries `password`.
pub fn auth_packet(password: &str) -> (r: RconPacket)
    ensures
        r.id == 1,
        r.type_ == SERVERDATA_AUTH,
        r.body@ == password.spec_bytes(),
{
    RconPacket { id: 1, type_: SERVERDATA_AUTH, body: slice_to_vec(password.as_bytes()) }
}

/// The request that runs `command`.
pub fn command_packet(command: &str) -> (r: RconPacket)
    ensures
        r.id == 2,
        r.type_ == SERVERDATA_EXECCOMMAND,
        r.body@ == command.spec_bytes(),
{
    RconPacket { id: 2, type_: SERVERDATA_EXECCOMMAND, body: slice_to_vec(command.as_bytes()) }
}

/// Whether an authentication response accepts the password: its type is
/// the authentication response and its id is not -1.
pub fn auth_accepted(response: &RconPacket) -> (r: bool)
    ensures
        r == (response.type_ == SERVERDATA_AUTH_RESPONSE && response.id != -1),
{
    response.type_ == SERVERDATA_AUTH_RESPONSE && response.id != -1
}

/// Whether a command response has the response-value type.
pub fn command_accepted(response: &RconPacket) -> (r: bool)
    ensures
        r == (response.type_ == SERVERDATA_RESPONSE_VALUE),
{
    response.type_ == SERVERDATA_RESPONSE_VALUE
}

/// What to do after a stop request failed.
#[derive(Debug, Clone, Copy, PartialEq, Eq, Structural)]
pub enum StopRetry {
    /// Wait this many seconds and try again.
    RetryAfter(u64),
    /// Give up on RCON and kill the process.
    Kill,
}

/// The decision after the stop request failed, `retries` retries having
/// been made already: retry after the backoff until the limit is reached,
/// then kill.
pub fn after_failed_stop_request(retries: usize) -> (r: StopRetry)
    ensures
        retries < REQUEST_STOP_RETRY_LIMIT ==> r == StopRetry::RetryAfter(REQUEST_STOP_RETRY_INTERVAL_SECS),
        retries >= REQUEST_STOP_RETRY_LIMIT ==> r == StopRetry::Kill,
{
    if retries >= REQUEST_STOP_RETRY_LIMIT {
        StopRetry::Kill
    } else {
        StopRetry::RetryAfter(REQUEST_STOP_RETRY_INTERVAL_SECS)
    }
}

/// The message that kicks players before a restart.
pub open spec fn restart_kick_command() -> Seq<char> {
    "kick @a The server is restarting. Please try connecting again after a while."@
}

/// The commands that a stop request runs, in order: a kick before a
/// restart, then `stop`.
pub fn stop_commands(restarting: bool) -> (r: Vec<String>)
    ensures
        restarting ==> r@.len() == 2 && r@[0]@ == restart_kick_command() && r@[1]@ == "stop"@,
        !restarting ==> r@.len() == 1 && r@[0]@ == "stop"@,
{
    let mut v: Vec<String> = Vec::new();
    if restarting {
        v.push(String::from_str("kick @a The server is restarting. Please try connecting again after a while."));
    }
    v.push(String::from_str("stop"));
    v
}

} // verus!
