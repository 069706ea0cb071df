//! Fixed-width big-endian primitives and length-prefixed UTF-8 strings, as
//! the Minecraft protocol lays them out.
use crate::varint::{
    lemma_varint_length, lemma_varint_round_trip, parse_varint, read_varint, varint_bytes,
    write_varint, VarInt,
};
use vstd::prelude::*;
use vstd::slice::{slice_subrange, slice_to_vec};
use vstd::utf8::{decode_utf8, encode_utf8, encode_utf8_decode_utf8, encode_utf8_valid_utf8, valid_utf8};

verus! {

/// Big-endian bytes of a `u16`.
pub open spec fn u16_bytes(x: u16) -> Seq<u8> {
    seq![(x / 256) as u8, (x % 256) as u8]
}

/// The `u16` at the front of `b`, and the two bytes it takes.
pub open spec fn parse_u16(b: Seq<u8>) -> Option<(u16, nat)> {
    if b.len() >= 2 {
        Some(((b[0] as int * 256 + b[1] as int) as u16, 2))
    } else {
        None
    }
}

/// Big-endian bytes of a `u64`.
pub open spec fn u64_bytes(u: u64) -> Seq<u8> {
    seq![
        (u >> 56u64) as u8,
        (u >> 48u64) as u8,
        (u >> 40u64) as u8,
        (u >> 32u64) as u8,
        (u >> 24u64) as u8,
        (u >> 16u64) as u8,
        (u >> 8u64) as u8,
        u as u8,
    ]
}

/// The `u64` that eight big-endian bytes spell.
pub open spec fn u64_of_bytes(b0: u8, b1: u8, b2: u8, b3: u8, b4: u8, b5: u8, b6: u8, b7: u8) -> u64 {
    ((b0 as u64) << 56u64) | ((b1 as u64) << 48u64) | ((b2 as u64) << 40u64) | ((b3 as u64)
        << 32u64) | ((b4 as u64) << 24u64) | ((b5 as u64) << 16u64) | ((b6 as u64) << 8u64) | (
    b7 as u64)
}

/// Big-endian bytes of an `i64` in two's complement.
pub open spec fn i64_bytes(x: i64) -> Seq<u8> {
    u64_bytes(x as u64)
}

/// The `i64` at the front of `b`, and the eight bytes it takes.
pub open spec fn parse_i64(b: Seq<u8>) -> Option<(i64, nat)> {
    if b.len() >= 8 {
        Some((u64_of_bytes(b[0], b[1], b[2], b[3], b[4], b[5], b[6], b[7]) as i64, 8))
    } else {
        None
    }
}

/// A string on the wire: its UTF-8 length as a VarInt, then its UTF-8 bytes.
pub open spec fn string_bytes(s: Seq<char>) -> Seq<u8> {
    varint_bytes(encode_utf8(s).len() as i32) + encode_utf8(s)
}

/// A string's UTF-8 encoding is short enough for its length to be a VarInt.
pub open spec fn string_fits(s: Seq<char>) -> bool {
    encode_utf8(s).len() <= i32::MAX
}

/// The string at the front of `b` and the bytes it takes: a VarInt length
/// that is not negative, then that many bytes of valid UTF-8.
pub open spec fn parse_string(b: Seq<u8>) -> Option<(Seq<char>, nat)> {
    match parse_varint(b) {
        Some((len, n)) => {
            if len >= 0 && n + len <= b.len() && valid_utf8(b.subrange(n as int, n + len)) {
                Some((decode_utf8(b.subrange(n as int, n + len)), (n + len) as nat))
            } else {
                None
            }
        },
        None => None,
    }
}

pub proof fn lemma_u16_round_trip(x: u16, rest: Seq<u8>)
    ensures
        parse_u16(u16_bytes(x) + rest) == Some((x, 2nat)),
{
    let b = u16_bytes(x) + rest;
    assert(b[0] == (x / 256) as u8 && b[1] == (x % 256) as u8);
    assert((x / 256) as u8 as int == x / 256);
    assert((x % 256) as u8 as int == x % 256);
}

pub proof fn lemma_i64_round_trip(x: i64, rest: Seq<u8>)
    ensures
        parse_i64(i64_bytes(x) + rest) == Some((x, 8nat)),
{
    let u = x as u64;
    let b = i64_bytes(x) + rest;
    assert(u64_of_bytes(
        (u >> 56u64) as u8,
        (u >> 48u64) as u8,
        (u >> 40u64) as u8,
        (u >> 32u64) as u8,
        (u >> 24u64) as u8,
        (u >> 16u64) as u8,
        (u >> 8u64) as u8,
        u as u8,
    ) == u) by (bit_vector);
    assert((u as i64) == x) by (bit_vector)
        requires
            u == x as u64,
    ;
    assert(b[0] == (u >> 56u64) as u8);
    assert(b[7] == u as u8);
}

pub proof fn lemma_string_round_trip(s: Seq<char>, rest: Seq<u8>)
    requires
        string_fits(s),
    ensures
        parse_string(string_bytes(s) + rest) == Some((s, string_bytes(s).len())),
{
    let e = encode_utf8(s);
    let len = e.len() as i32;
    let b = string_bytes(s) + rest;
    lemma_varint_round_trip(len, e + rest);
    assert(b =~= varint_bytes(len) + (e + rest));
    let n = varint_bytes(len).len();
    assert(b.subrange(n as int, n + len) =~= e);
    encode_utf8_valid_utf8(s);
    encode_utf8_decode_utf8(s);
}

/// Appends `b` to `out`.
pub fn append_bytes(out: &mut Vec<u8>, b: &[u8])
    ensures
        final(out)@ == old(out)@ + b@,
{
    let mut i: usize = 0;
    while i < b.len()
        invariant
            i <= b@.len(),
            out@ == old(out)@ + b@.subrange(0, i as int),
        decreases b@.len() - i,
    {
        out.push(b[i]);
        assert(b@.subrange(0, (i + 1) as int) =~= b@.subrange(0, i as int).push(b@[i as int]));
        i = i + 1;
    }
    assert(b@.subrange(0, i as int) =~= b@);
}

/// Appends the big-endian bytes of `value`.
pub fn write_unsigned_short(out: &mut Vec<u8>, value: u16)
    ensures
        final(out)@ == old(out)@ + u16_bytes(value),
{
    out.push((value / 256) as u8);
    out.push((value % 256) as u8);
    assert(out@ =~= old(out)@ + u16_bytes(value));
}

/// Appends the big-endian bytes of `value`.
pub fn write_long(out: &mut Vec<u8>, value: i64)
    ensures
        final(out)@ == old(out)@ + i64_bytes(value),
{
    #[verifier::truncate]
    let u: u64 = value as u64;
    out.push(#[verifier::truncate] ((u >> 56u64) as u8));
    out.push(#[verifier::truncate] ((u >> 48u64) as u8));
    out.push(#[verifier::truncate] ((u >> 40u64) as u8));
    out.push(#[verifier::truncate] ((u >> 32u64) as u8));
    out.push(#[verifier::truncate] ((u >> 24u64) as u8));
    out.push(#[verifier::truncate] ((u >> 16u64) as u8));
    out.push(#[verifier::truncate] ((u >> 8u64) as u8));
    out.push(#[verifier::truncate] (u as u8));
    assert(out@ =~= old(out)@ + i64_bytes(value));
}

/// Appends `value` as a length-prefixed UTF-8 string.
pub fn write_string(out: &mut Vec<u8>, value: &str)
    requires
        string_fits(value@),
    ensures
        final(out)@ == old(out)@ + string_bytes(value@),
{
    let bytes = value.as_bytes();
    write_varint(out, VarInt(bytes.len() as i32));
    append_bytes(out, bytes);
    assert(out@ =~= old(out)@ + string_bytes(value@));
}

/// Reads the big-endian `u16` at `pos`; gives it and the position after it.
pub fn read_unsigned_short(data: &[u8], pos: usize) -> (r: Option<(u16, usize)>)
    requires
        pos <= data@.len(),
    ensures
        match r {
            Some((v, next)) => pos <= next <= data@.len() && parse_u16(data@.skip(pos as int)) == Some((v, (next - pos) as nat)),
            None => parse_u16(data@.skip(pos as int)) is None,
        },
{
    if data.len() - pos < 2 {
        return None;
    }
    let hi = data[pos] as u16;
    let lo = data[pos + 1] as u16;
    Some((hi * 256 + lo, pos + 2))
}

/// Reads the big-endian `i64` at `pos`; gives it and the position after it.
pub fn read_long(data: &[u8], pos: usize) -> (r: Option<(i64, usize)>)
    requires
        pos <= data@.len(),
    ensures
        match r {
            Some((v, next)) => pos <= next <= data@.len() && parse_i64(data@.skip(pos as int)) == Some((v, (next - pos) as nat)),
            None => parse_i64(data@.skip(pos as int)) is None,
        },
{
    if data.len() - pos < 8 {
        return None;
    }
    let u: u64 = ((data[pos] as u64) << 56u64) | ((data[pos + 1] as u64) << 48u64) | ((data[pos
        + 2] as u64) << 40u64) | ((data[pos + 3] as u64) << 32u64) | ((data[pos + 4] as u64)
        << 24u64) | ((data[pos + 5] as u64) << 16u64) | ((data[pos + 6] as u64) << 8u64) | (data[pos
        + 7] as u64);
    Some((#[verifier::truncate] (u as i64), pos + 8))
}

/// Relies on `String::from_utf8`: `Ok` exactly when the bytes are valid
/// UTF-8, holding the characters they encode.
#[verifier::external_body]
fn string_from_utf8(bytes: Vec<u8>) -> (r: Option<String>)
    ensures
        r is Some <==> valid_utf8(bytes@),
        r matches Some(s) ==> s@ == decode_utf8(bytes@),
{
    String::from_utf8(bytes).ok()
}

/// Reads the length-prefixed string at `pos`; gives it and the position after it.
pub fn read_string(data: &[u8], pos: usize) -> (r: Option<(String, usize)>)
    requires
        pos <= data@.len(),
    ensures
        match r {
            Some((s, next)) => pos <= next <= data@.len() && parse_string(data@.skip(pos as int)) == Some((s@, (next - pos) as nat)),
            None => parse_string(data@.skip(pos as int)) is None,
        },
{
    let ghost rest = data@.skip(pos as int);
    assert(rest =~= data@.subrange(pos as int, data@.len() as int));
    let (len, after) = match read_varint(data, pos) {
        Ok(x) => x,
        Err(_) => return None,
    };
    if len.0 < 0 {
        return None;
    }
    let n = len.0 as usize;
    if n > data.len() - after {
        return None;
    }
    let ghost k = (after - pos) as int;
    let bytes = slice_to_vec(slice_subrange(data, after, after + n));
    assert(bytes@ =~= rest.subrange(k, k + n));
    match string_from_utf8(bytes) {
        Some(s) => Some((s, after + n)),
        None => None,
    }
}

} // verus!
