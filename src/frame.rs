//! Framing of packets on a stream: a VarInt length, then the packet id as a
//! VarInt and the payload, the length counting both.
use crate::packet::RawPacket;
use crate::varint::{
    lemma_varint_length, lemma_varint_round_trip, parse_varint, read_varint, varint_bytes,
    varint_length, write_varint, VarInt,
};
use crate::wire::append_bytes;
use vstd::prelude::*;
use vstd::slice::{slice_subrange, slice_to_vec};

verus! {

/// Why a frame body could not be split into id and payload.
#[derive(Debug, Clone, Copy, PartialEq, Eq, Structural)]
pub enum FrameError {
    /// The body does not start with a VarInt packet id.
    MissingPacketId,
}

/// The body of a frame: the packet id, then the payload.
pub open spec fn frame_body(id: i32, data: Seq<u8>) -> Seq<u8> {
    varint_bytes(id) + data
}

/// A whole frame: the body's length as a VarInt, then the body.
pub open spec fn frame_bytes(id: i32, data: Seq<u8>) -> Seq<u8> {
    varint_bytes(frame_body(id, data).len() as i32) + frame_body(id, data)
}

/// The packet id at the front of a body and the payload after it.
pub open spec fn parse_frame_body(b: Seq<u8>) -> Option<(i32, Seq<u8>)> {
    match parse_varint(b) {
        Some((id, n)) => Some((id, b.skip(n as int))),
        None => None,
    }
}

/// A payload short enough for its frame's length to be a VarInt.
pub open spec fn frame_fits(data: Seq<u8>) -> bool {
    data.len() + 5 <= i32::MAX
}

/// Reading the length prefix of a frame gives the body's length, and the
/// body splits back into the id and payload that were framed.
pub proof fn lemma_frame_round_trip(id: i32, data: Seq<u8>, rest: Seq<u8>)
    requires
        frame_fits(data),
    ensures
        parse_varint(frame_bytes(id, data) + rest) == Some(
            (
                frame_body(id, data).len() as i32,
                varint_bytes(frame_body(id, data).len() as i32).len(),
            ),
        ),
        parse_frame_body(frame_body(id, data)) == Some((id, data)),
{
    let body = frame_body(id, data);
    lemma_varint_length(id);
    let len = body.len() as i32;
    lemma_varint_round_trip(len, body + rest);
    assert(frame_bytes(id, data) + rest =~= varint_bytes(len) + (body + rest));
    lemma_varint_round_trip(id, data);
    assert(body.skip(varint_bytes(id).len() as int) =~= data);
}

/// The frame that carries `packet`.
pub fn encode_frame(packet: &RawPacket) -> (r: Vec<u8>)
    requires
        frame_fits(packet.data@),
    ensures
        r@ == frame_bytes(packet.packet_id.0, packet.data@),
{
    proof {
        lemma_varint_length(packet.packet_id.0);
    }
    let length = varint_length(packet.packet_id) + packet.data.len();
    let mut out: Vec<u8> = Vec::new();
    write_varint(&mut out, VarInt(length as i32));
    write_varint(&mut out, packet.packet_id);
    append_bytes(&mut out, packet.data.as_slice());
    assert(out@ =~= frame_bytes(packet.packet_id.0, packet.data@));
    out
}

/// Splits a frame body, whose length the prefix gave, into id and payload.
pub fn decode_frame_body(body: &[u8]) -> (r: Result<RawPacket, FrameError>)
    ensures
        match r {
            Ok(p) => parse_frame_body(body@) == Some((p.packet_id.0, p.data@)),
            Err(_) => parse_frame_body(body@) is None,
        },
{
    assert(body@.subrange(0, body@.len() as int) =~= body@);
    match read_varint(body, 0) {
        Ok((packet_id, next)) => {
            let data = slice_to_vec(slice_subrange(body, next, body.len()));
            assert(data@ =~= body@.skip(next as int));
            Ok(RawPacket { packet_id, data })
        },
        Err(_) => Err(FrameError::MissingPacketId),
    }
}

} // verus!
