//! Packets of the Handshaking, Status and Login states that the daemon reads
//! and writes, and their payload encoding. JSON bodies (a status response, a
//! disconnect reason) are carried as their JSON text.
use crate::varint::{lemma_varint_round_trip, parse_varint, read_varint, varint_bytes, write_varint, VarInt};
use crate::wire::{
    i64_bytes, lemma_i64_round_trip, lemma_string_round_trip, lemma_u16_round_trip, parse_i64,
    parse_string, parse_u16, read_long, read_string, read_unsigned_short, string_bytes,
    string_fits, u16_bytes, write_long, write_string, write_unsigned_short,
};
use vstd::prelude::*;

verus! {

/// The connection states of the protocol.
#[derive(Debug, Clone, Copy, PartialEq, Eq, Structural)]
pub enum ProtocolState {
    Handshaking,
    Status,
    Login,
    Transfer,
}

/// The direction a packet travels in.
#[derive(Debug, Clone, Copy, PartialEq, Eq, Structural)]
pub enum ProtocolBound {
    Clientbound,
    Serverbound,
}

/// A packet as framed on the wire: its id and its undecoded payload.
#[derive(Debug, Clone)]
pub struct RawPacket {
    pub packet_id: VarInt,
    pub data: Vec<u8>,
}

/// The packets the daemon understands.
#[derive(Debug, Clone)]
pub enum Packet {
    /// Handshaking, serverbound.
    Handshake {
        protocol_version: VarInt,
        server_address: String,
        server_port: u16,
        intent: ProtocolState,
    },
    /// Status, clientbound: the server description as JSON text.
    StatusResponse { json_response: String },
    /// Status, clientbound.
    PongResponse { timestamp: i64 },
    /// Status, serverbound.
    StatusRequest,
    /// Status, serverbound.
    PingRequest { timestamp: i64 },
    /// Login, clientbound: the reason as a JSON text component.
    Disconnect { reason: String },
}

/// What a `Packet` holds, with its strings as character sequences.
pub enum PacketView {
    Handshake {
        protocol_version: i32,
        server_address: Seq<char>,
        server_port: u16,
        intent: ProtocolState,
    },
    StatusResponse { json_response: Seq<char> },
    PongResponse { timestamp: i64 },
    StatusRequest,
    PingRequest { timestamp: i64 },
    Disconnect { reason: Seq<char> },
}

impl View for Packet {
    type V = PacketView;

    open spec fn view(&self) -> PacketView {
        match self {
            Packet::Handshake { protocol_version, server_address, server_port, intent } =>
                PacketView::Handshake {
                protocol_version: protocol_version.0,
                server_address: server_address@,
                server_port: *server_port,
                intent: *intent,
            },
            Packet::StatusResponse { json_response } => PacketView::StatusResponse {
                json_response: json_response@,
            },
            Packet::PongResponse { timestamp } => PacketView::PongResponse { timestamp: *timestamp },
            Packet::StatusRequest => PacketView::StatusRequest,
            Packet::PingRequest { timestamp } => PacketView::PingRequest { timestamp: *timestamp },
            Packet::Disconnect { reason } => PacketView::Disconnect { reason: reason@ },
        }
    }
}

/// Why a packet could not be decoded.
#[derive(Debug, Clone, Copy, PartialEq, Eq, Structural)]
pub enum PacketError {
    /// No packet has this id in this state and direction.
    UnknownPacket,
    /// The payload does not hold the packet's fields.
    Malformed,
}

/// The number a handshake carries for the state it asks for.
pub open spec fn intent_code(s: ProtocolState) -> i32 {
    match s {
        ProtocolState::Handshaking => 0,
        ProtocolState::Status => 1,
        ProtocolState::Login => 2,
        ProtocolState::Transfer => 3,
    }
}

/// The state a handshake asks for by number; only Status, Login and Transfer can be asked for.
pub open spec fn intent_of_code(c: i32) -> Option<ProtocolState> {
    if c == 1 {
        Some(ProtocolState::Status)
    } else if c == 2 {
        Some(ProtocolState::Login)
    } else if c == 3 {
        Some(ProtocolState::Transfer)
    } else {
        None
    }
}

/// The id of a packet within its state and direction.
pub open spec fn packet_id_of(p: PacketView) -> i32 {
    match p {
        PacketView::PongResponse { .. } | PacketView::PingRequest { .. } => 1,
        _ => 0,
    }
}

/// The state a packet belongs to.
pub open spec fn state_of(p: PacketView) -> ProtocolState {
    match p {
        PacketView::Handshake { .. } => ProtocolState::Handshaking,
        PacketView::Disconnect { .. } => ProtocolState::Login,
        _ => ProtocolState::Status,
    }
}

/// The direction a packet travels in.
pub open spec fn bound_of(p: PacketView) -> ProtocolBound {
    match p {
        PacketView::Handshake { .. } | PacketView::StatusRequest | PacketView::PingRequest { .. } =>
            ProtocolBound::Serverbound,
        _ => ProtocolBound::Clientbound,
    }
}

/// A packet that can be written and read back: its strings fit a VarInt
/// length and a handshake asks for Status, Login or Transfer.
pub open spec fn valid_packet(p: PacketView) -> bool {
    match p {
        PacketView::Handshake { server_address, intent, .. } => string_fits(server_address)
            && intent != ProtocolState::Handshaking,
        PacketView::StatusResponse { json_response } => string_fits(json_response),
        PacketView::Disconnect { reason } => string_fits(reason),
        _ => true,
    }
}

/// The payload bytes of a packet.
pub open spec fn payload_of(p: PacketView) -> Seq<u8> {
    match p {
        PacketView::Handshake { protocol_version, server_address, server_port, intent } =>
            varint_bytes(protocol_version) + string_bytes(server_address) + u16_bytes(server_port)
            + varint_bytes(intent_code(intent)),
        PacketView::StatusResponse { json_response } => string_bytes(json_response),
        PacketView::PongResponse { timestamp } => i64_bytes(timestamp),
        PacketView::StatusRequest => Seq::empty(),
        PacketView::PingRequest { timestamp } => i64_bytes(timestamp),
        PacketView::Disconnect { reason } => string_bytes(reason),
    }
}

/// Some packet has this id in this state and direction.
pub open spec fn packet_defined(state: ProtocolState, bound: ProtocolBound, id: i32) -> bool {
    match (state, bound) {
        (ProtocolState::Handshaking, ProtocolBound::Serverbound) => id == 0,
        (ProtocolState::Status, _) => id == 0 || id == 1,
        (ProtocolState::Login, ProtocolBound::Clientbound) => id == 0,
        _ => false,
    }
}

/// The handshake whose fields stand at the front of `b`.
pub open spec fn decode_handshake(b: Seq<u8>) -> Option<PacketView> {
    match parse_varint(b) {
        None => None,
        Some((pv, n1)) => match parse_string(b.skip(n1 as int)) {
            None => None,
            Some((addr, n2)) => match parse_u16(b.skip((n1 + n2) as int)) {
                None => None,
                Some((port, n3)) => match parse_varint(b.skip((n1 + n2 + n3) as int)) {
                    None => None,
                    Some((code, _)) => match intent_of_code(code) {
                        None => None,
                        Some(intent) => Some(
                            PacketView::Handshake {
                                protocol_version: pv,
                                server_address: addr,
                                server_port: port,
                                intent,
                            },
                        ),
                    },
                },
            },
        },
    }
}

/// The packet with id `id` in `state` and direction `bound` whose payload is
/// `b`; bytes after its last field are not read.
pub open spec fn decode_packet(
    state: ProtocolState,
    bound: ProtocolBound,
    id: i32,
    b: Seq<u8>,
) -> Option<PacketView> {
    if !packet_defined(state, bound, id) {
        None
    } else {
        match state {
            ProtocolState::Handshaking => decode_handshake(b),
            ProtocolState::Status => match bound {
                ProtocolBound::Clientbound => if id == 0 {
                    match parse_string(b) {
                        Some((s, _)) => Some(PacketView::StatusResponse { json_response: s }),
                        None => None,
                    }
                } else {
                    match parse_i64(b) {
                        Some((t, _)) => Some(PacketView::PongResponse { timestamp: t }),
                        None => None,
                    }
                },
                ProtocolBound::Serverbound => if id == 0 {
                    Some(PacketView::StatusRequest)
                } else {
                    match parse_i64(b) {
                        Some((t, _)) => Some(PacketView::PingRequest { timestamp: t }),
                        None => None,
                    }
                },
            },
            _ => match parse_string(b) {
                Some((s, _)) => Some(PacketView::Disconnect { reason: s }),
                None => None,
            },
        }
    }
}

/// Decoding the payload of a valid packet, in the packet's own state and
/// direction and under its own id, gives the packet back.
pub proof fn lemma_packet_round_trip(p: PacketView)
    requires
        valid_packet(p),
    ensures
        decode_packet(state_of(p), bound_of(p), packet_id_of(p), payload_of(p)) == Some(p),
{
    let e = Seq::<u8>::empty();
    match p {
        PacketView::Handshake { protocol_version, server_address, server_port, intent } => {
            let a = varint_bytes(protocol_version);
            let s = string_bytes(server_address);
            let u = u16_bytes(server_port);
            let c = varint_bytes(intent_code(intent));
            let b = payload_of(p);
            lemma_varint_round_trip(protocol_version, s + u + c);
            assert(b =~= a + (s + u + c));
            lemma_string_round_trip(server_address, u + c);
            assert(b.skip(a.len() as int) =~= s + (u + c));
            lemma_u16_round_trip(server_port, c);
            assert(b.skip((a.len() + s.len()) as int) =~= u + c);
            lemma_varint_round_trip(intent_code(intent), e);
            assert(b.skip((a.len() + s.len() + 2) as int) =~= c + e);
        },
        PacketView::StatusResponse { json_response } => {
            lemma_string_round_trip(json_response, e);
            assert(payload_of(p) =~= string_bytes(json_response) + e);
        },
        PacketView::Disconnect { reason } => {
            lemma_string_round_trip(reason, e);
            assert(payload_of(p) =~= string_bytes(reason) + e);
        },
        PacketView::PongResponse { timestamp } => {
            lemma_i64_round_trip(timestamp, e);
            assert(payload_of(p) =~= i64_bytes(timestamp) + e);
        },
        PacketView::PingRequest { timestamp } => {
            lemma_i64_round_trip(timestamp, e);
            assert(payload_of(p) =~= i64_bytes(timestamp) + e);
        },
        PacketView::StatusRequest => {},
    }
}

impl Packet {
    /// The id of this packet within its state and direction.
    pub fn packet_id(&self) -> (r: VarInt)
        ensures
            r.0 == packet_id_of(self@),
    {
        match self {
            Packet::PongResponse { .. } | Packet::PingRequest { .. } => VarInt(1),
            _ => VarInt(0),
        }
    }

    /// Encodes this packet's payload.
    pub fn to_raw_packet(&self) -> (r: RawPacket)
        requires
            valid_packet(self@),
        ensures
            r.packet_id.0 == packet_id_of(self@),
            r.data@ == payload_of(self@),
    {
        let mut data: Vec<u8> = Vec::new();
        match self {
            Packet::Handshake { protocol_version, server_address, server_port, intent } => {
                write_varint(&mut data, *protocol_version);
                write_string(&mut data, server_address.as_str());
                write_unsigned_short(&mut data, *server_port);
                let code: i32 = match intent {
                    ProtocolState::Handshaking => 0,
                    ProtocolState::Status => 1,
                    ProtocolState::Login => 2,
                    ProtocolState::Transfer => 3,
                };
                write_varint(&mut data, VarInt(code));
            },
            Packet::StatusResponse { json_response } => {
                write_string(&mut data, json_response.as_str());
            },
            Packet::PongResponse { timestamp } => {
                write_long(&mut data, *timestamp);
            },
            Packet::StatusRequest => {},
            Packet::PingRequest { timestamp } => {
                write_long(&mut data, *timestamp);
            },
            Packet::Disconnect { reason } => {
                write_string(&mut data, reason.as_str());
            },
        }
        assert(data@ =~= payload_of(self@));
        RawPacket { packet_id: self.packet_id(), data }
    }

    /// Decodes a packet received in `state` travelling in direction `bound`.
    pub fn from_raw_packet(state: ProtocolState, bound: ProtocolBound, raw_packet: &RawPacket) -> (r:
        Result<Packet, PacketError>)
        ensures
            match r {
                Ok(p) => decode_packet(state, bound, raw_packet.packet_id.0, raw_packet.data@) == Some(
                    p@,
                ),
                Err(PacketError::UnknownPacket) => !packet_defined(
                    state,
                    bound,
                    raw_packet.packet_id.0,
                ),
                Err(PacketError::Malformed) => packet_defined(
                    state,
                    bound,
                    raw_packet.packet_id.0,
                ) && decode_packet(state, bound, raw_packet.packet_id.0, raw_packet.data@) is None,
            },
    {
        let id = raw_packet.packet_id.0;
        let data = raw_packet.data.as_slice();
        assert(data@.skip(0) =~= data@);
        match (state, bound) {
            (ProtocolState::Handshaking, ProtocolBound::Serverbound) => {
                if id != 0 {
                    return Err(PacketError::UnknownPacket);
                }
                let (protocol_version, p1) = match read_varint(data, 0) {
                    Ok(x) => x,
                    Err(_) => return Err(PacketError::Malformed),
                };
                assert(data@.subrange(0, data@.len() as int) =~= data@);
                let (server_address, p2) = match read_string(data, p1) {
                    Some(x) => x,
                    None => return Err(PacketError::Malformed),
                };
                let (server_port, p3) = match read_unsigned_short(data, p2) {
                    Some(x) => x,
                    None => return Err(PacketError::Malformed),
                };
                assert(data@.subrange(p3 as int, data@.len() as int) =~= data@.skip(p3 as int));
                let (code, _) = match read_varint(data, p3) {
                    Ok(x) => x,
                    Err(_) => return Err(PacketError::Malformed),
                };
                let intent = if code.0 == 1 {
                    ProtocolState::Status
                } else if code.0 == 2 {
                    ProtocolState::Login
                } else if code.0 == 3 {
                    ProtocolState::Transfer
                } else {
                    return Err(PacketError::Malformed);
                };
                Ok(Packet::Handshake { protocol_version, server_address, server_port, intent })
            },
            (ProtocolState::Status, ProtocolBound::Clientbound) => {
                if id == 0 {
                    match read_string(data, 0) {
                        Some((json_response, _)) => Ok(Packet::StatusResponse { json_response }),
                        None => Err(PacketError::Malformed),
                    }
                } else if id == 1 {
                    match read_long(data, 0) {
                        Some((timestamp, _)) => Ok(Packet::PongResponse { timestamp }),
                        None => Err(PacketError::Malformed),
                    }
                } else {
                    Err(PacketError::UnknownPacket)
                }
            },
            (ProtocolState::Status, ProtocolBound::Serverbound) => {
                if id == 0 {
                    Ok(Packet::StatusRequest)
                } else if id == 1 {
                    match read_long(data, 0) {
                        Some((timestamp, _)) => Ok(Packet::PingRequest { timestamp }),
                        None => Err(PacketError::Malformed),
                    }
                } else {
                    Err(PacketError::UnknownPacket)
                }
            },
            (ProtocolState::Login, ProtocolBound::Clientbound) => {
                if id != 0 {
                    return Err(PacketError::UnknownPacket);
                }
                match read_string(data, 0) {
                    Some((reason, _)) => Ok(Packet::Disconnect { reason }),
                    None => Err(PacketError::Malformed),
                }
            },
            _ => Err(PacketError::UnknownPacket),
        }
    }
}

} // verus!
