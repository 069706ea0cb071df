//! The control socket's framing (`[u32 big-endian length][message]`) and
//! the decisions the control server makes per request.
use crate::wire::append_bytes;
use vstd::prelude::*;

verus! {

/// Big-endian bytes of a `u32`.
pub open spec fn u32_be(x: u32) -> Seq<u8> {
    seq![(x >> 24u32) as u8, (x >> 16u32) as u8, (x >> 8u32) as u8, x as u8]
}

/// The `u32` that four big-endian bytes spell.
pub open spec fn u32_of_be(b: Seq<u8>) -> u32 {
    ((b[0] as u32) << 24u32) | ((b[1] as u32) << 16u32) | ((b[2] as u32) << 8u32) | (b[3] as u32)
}

/// A frame: the message length, then the message.
pub open spec fn control_frame(payload: Seq<u8>) -> Seq<u8> {
    u32_be(payload.len() as u32) + payload
}

/// The frame that carries `payload`.
pub fn encode_control_frame(payload: &[u8]) -> (r: Vec<u8>)
    requires
        payload@.len() <= u32::MAX,
    ensures
        r@ == control_frame(payload@),
{
    let n = payload.len() as u32;
    let mut out: Vec<u8> = Vec::new();
    out.push(#[verifier::truncate] ((n >> 24u32) as u8));
    out.push(#[verifier::truncate] ((n >> 16u32) as u8));
    out.push(#[verifier::truncate] ((n >> 8u32) as u8));
    out.push(#[verifier::truncate] (n as u8));
    append_bytes(&mut out, payload);
    assert(out@ =~= control_frame(payload@));
    out
}

/// The message length that a frame header gives.
pub fn frame_length(header: &[u8]) -> (r: u32)
    requires
        header@.len() >= 4,
    ensures
        r == u32_of_be(header@),
{
    ((header[0] as u32) << 24u32) | ((header[1] as u32) << 16u32) | ((header[2] as u32) << 8u32) | (header[3] as u32)
}

/// The message of the frame at the front of `buf` and the bytes the frame
/// takes; `None` while the buffer holds less than a whole frame.
pub fn split_control_frame(buf: &[u8]) -> (r: Option<(Vec<u8>, usize)>)
    ensures
        match r {
            Some((msg, n)) => buf@.len() >= 4 && n == 4 + u32_of_be(buf@) && n <= buf@.len() && msg@ == buf@.subrange(4, n as int),
            None => buf@.len() < 4 || buf@.len() < 4 + u32_of_be(buf@),
        },
{
    if buf.len() < 4 {
        return None;
    }
    let len = frame_length(buf) as usize;
    if buf.len() - 4 < len {
        return None;
    }
    let msg = vstd::slice::slice_to_vec(vstd::slice::slice_subrange(buf, 4, 4 + len));
    Some((msg, 4 + len))
}

/// A frame's header gives back the length of the message it carries.
pub proof fn lemma_control_frame_length(payload: Seq<u8>)
    requires
        payload.len() <= u32::MAX,
    ensures
        u32_of_be(control_frame(payload)) == payload.len(),
        control_frame(payload).skip(4) == payload,
{
    let n = payload.len() as u32;
    let f = control_frame(payload);
    assert(f[0] == (n >> 24u32) as u8 && f[1] == (n >> 16u32) as u8 && f[2] == (n >> 8u32) as u8 && f[3] == n as u8);
    assert((((n >> 24u32) as u8 as u32) << 24u32) | (((n >> 16u32) as u8 as u32) << 16u32) | (((n >> 8u32) as u8 as u32) << 8u32) | (n as u8 as u32) == n) by (bit_vector);
    assert(f.skip(4) =~= payload);
}

/// What a connection does after a reply was written.
#[derive(Debug, Clone, Copy, PartialEq, Eq, Structural)]
pub enum NextStep {
    /// Read the next request on the same connection.
    AwaitRequest,
    /// Switch the connection to the terminal stream.
    TerminalMode,
}

/// The step after a reply: only a terminal attachment leaves request mode.
pub open spec fn step_after_reply(attached_terminal: bool) -> NextStep {
    if attached_terminal {
        NextStep::TerminalMode
    } else {
        NextStep::AwaitRequest
    }
}

/// The step after a reply, where `attached_terminal` tells whether the
/// handler attached a terminal.
pub fn next_step(attached_terminal: bool) -> (r: NextStep)
    ensures
        r == step_after_reply(attached_terminal),
{
    if attached_terminal {
        NextStep::TerminalMode
    } else {
        NextStep::AwaitRequest
    }
}

} // verus!
