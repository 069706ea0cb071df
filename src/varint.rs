//! Variable-length integers of the Minecraft protocol: seven bits per byte,
//! least significant group first, the high bit set on every byte but the last.
use vstd::prelude::*;

verus! {

/// A 32-bit signed integer as carried on the wire in at most five bytes.
#[derive(Debug, Clone, Copy, PartialEq, Eq, Structural)]
pub struct VarInt(pub i32);

/// Why a VarInt could not be read.
#[derive(Debug, Clone, Copy, PartialEq, Eq, Structural)]
pub enum VarIntError {
    /// The input ended before the last byte of the VarInt.
    Incomplete,
    /// Five bytes were read and the fifth still asks for more.
    TooLong,
}

/// The seven-bit groups of `v` from group `k` on.
pub open spec fn groups_of(v: u32, k: nat) -> u32 {
    v >> ((7 * k) as u32)
}

/// The encoding of the groups of `v` from group `k` on.
pub open spec fn varint_bytes_from(v: u32, k: nat) -> Seq<u8>
    decreases 5 - k,
{
    if k >= 4 || groups_of(v, k) < 128 {
        seq![groups_of(v, k) as u8]
    } else {
        seq![((groups_of(v, k) & 0x7f) | 0x80) as u8] + varint_bytes_from(v, k + 1)
    }
}

/// The bytes that encode `n`; a negative `n` is encoded as its two's-complement `u32`.
pub open spec fn varint_bytes(n: i32) -> Seq<u8> {
    varint_bytes_from(n as u32, 0)
}

/// Reads groups from the front of `b`, group `k` first, into `acc`; gives the
/// value and the number of bytes read, or `None` where `b` ends early or the
/// fifth byte still has its continuation bit.
pub open spec fn parse_groups(b: Seq<u8>, k: nat, acc: u32) -> Option<(u32, nat)>
    decreases 5 - k,
{
    if k >= 5 || b.len() == 0 {
        None
    } else {
        let acc2 = acc | (((b[0] & 0x7f) as u32) << ((7 * k) as u32));
        if b[0] & 0x80 == 0 {
            Some((acc2, 1))
        } else {
            match parse_groups(b.drop_first(), k + 1, acc2) {
                Some((v, n)) => Some((v, n + 1)),
                None => None,
            }
        }
    }
}

/// The VarInt at the front of `b` and its length in bytes.
pub open spec fn parse_varint(b: Seq<u8>) -> Option<(i32, nat)> {
    match parse_groups(b, 0, 0) {
        Some((v, n)) => Some((v as i32, n)),
        None => None,
    }
}

/// The first five bytes of `b` all carry the continuation bit.
pub open spec fn varint_too_long(b: Seq<u8>) -> bool {
    b.len() >= 5 && forall|i: int| 0 <= i < 5 ==> #[trigger] b[i] & 0x80 != 0
}

proof fn lemma_shift_step(v: u32, s: u32)
    requires
        s <= 21,
    ensures
        (v >> s) >> 7u32 == v >> ((s + 7) as u32),
{
    assert((v >> s) >> 7u32 == v >> ((s + 7) as u32)) by (bit_vector)
        requires
            s <= 21,
    ;
}

proof fn lemma_top_group_small(v: u32)
    ensures
        v >> 28u32 < 128,
{
    assert(v >> 28u32 < 128) by (bit_vector);
}

proof fn lemma_last_group(v: u32, s: u32)
    requires
        s <= 28,
        v >> s < 128,
    ensures
        (v & !(0xffff_ffffu32 << s)) | ((((v >> s) as u8 & 0x7f) as u32) << s) == v,
        ((v >> s) as u8) & 0x80 == 0,
{
    assert((v & !(0xffff_ffffu32 << s)) | ((((v >> s) as u8 & 0x7f) as u32) << s) == v)
        by (bit_vector)
        requires
            s <= 28,
            v >> s < 128,
    ;
    assert(((v >> s) as u8) & 0x80 == 0) by (bit_vector)
        requires
            v >> s < 128,
    ;
}

proof fn lemma_middle_group(v: u32, s: u32)
    requires
        s <= 21,
    ensures
        ({
            let b = (((v >> s) & 0x7f) | 0x80) as u8;
            &&& b & 0x80 != 0
            &&& (v & !(0xffff_ffffu32 << s)) | (((b & 0x7f) as u32) << s) == v & !(
            0xffff_ffffu32 << ((s + 7) as u32))
        }),
{
    let b = (((v >> s) & 0x7f) | 0x80) as u8;
    assert(b & 0x80 != 0) by (bit_vector)
        requires
            b == (((v >> s) & 0x7f) | 0x80) as u8,
    ;
    assert((v & !(0xffff_ffffu32 << s)) | (((b & 0x7f) as u32) << s) == v & !(0xffff_ffffu32 << ((
    s + 7) as u32))) by (bit_vector)
        requires
            s <= 21,
            b == (((v >> s) & 0x7f) | 0x80) as u8,
    ;
}

proof fn lemma_parse_encoded_from(v: u32, k: nat, rest: Seq<u8>)
    requires
        k <= 4,
    ensures
        parse_groups(varint_bytes_from(v, k) + rest, k, v & !(0xffff_ffffu32 << ((7 * k) as u32)))
            == Some((v, varint_bytes_from(v, k).len())),
    decreases 5 - k,
{
    let s = (7 * k) as u32;
    let b = varint_bytes_from(v, k) + rest;
    if k == 4 {
        lemma_top_group_small(v);
    }
    if k >= 4 || groups_of(v, k) < 128 {
        lemma_last_group(v, s);
    } else {
        lemma_middle_group(v, s);
        lemma_parse_encoded_from(v, k + 1, rest);
        assert(b.drop_first() =~= varint_bytes_from(v, k + 1) + rest);
    }
}

/// A VarInt read back from its own encoding, followed by anything, is the
/// value written, and the read stops at the end of the encoding.
pub proof fn lemma_varint_round_trip(n: i32, rest: Seq<u8>)
    ensures
        parse_varint(varint_bytes(n) + rest) == Some((n, varint_bytes(n).len())),
{
    lemma_parse_encoded_from(n as u32, 0, rest);
    assert(n as u32 & !(0xffff_ffffu32 << 0u32) == 0) by (bit_vector);
    assert((n as u32) as i32 == n) by (bit_vector);
}

proof fn lemma_len_from(v: u32, k: nat)
    requires
        k <= 4,
    ensures
        1 <= varint_bytes_from(v, k).len() <= 5 - k,
    decreases 5 - k,
{
    if !(k >= 4 || groups_of(v, k) < 128) {
        lemma_len_from(v, k + 1);
    }
}

proof fn lemma_len_from_high(v: u32, k: nat)
    requires
        k <= 4,
        v >= 0x8000_0000,
    ensures
        varint_bytes_from(v, k).len() == 5 - k,
    decreases 5 - k,
{
    if k < 4 {
        let s = (7 * k) as u32;
        assert(v >> s >= 128) by (bit_vector)
            requires
                v >= 0x8000_0000,
                s <= 21,
        ;
        lemma_len_from_high(v, k + 1);
    }
}

/// Every VarInt takes one to five bytes; a negative one takes exactly five.
pub proof fn lemma_varint_length(n: i32)
    ensures
        1 <= varint_bytes(n).len() <= 5,
        n < 0 ==> varint_bytes(n).len() == 5,
{
    lemma_len_from(n as u32, 0);
    if n < 0 {
        assert(n as u32 >= 0x8000_0000) by (bit_vector)
            requires
                n < 0,
        ;
        lemma_len_from_high(n as u32, 0);
    }
}

/// Appends the encoding of `value` to `out`.
pub fn write_varint(out: &mut Vec<u8>, value: VarInt)
    ensures
        final(out)@ == old(out)@ + varint_bytes(value.0),
{
    #[verifier::truncate]
    let x: u32 = value.0 as u32;
    let mut v: u32 = x;
    assert(x >> 0u32 == x) by (bit_vector);
    let mut k: usize = 0;
    loop
        invariant
            k <= 4,
            v == groups_of(x, k as nat),
            out@ + varint_bytes_from(x, k as nat) == old(out)@ + varint_bytes(value.0),
        decreases 4 - k,
    {
        if k == 4 {
            proof {
                lemma_top_group_small(x);
            }
        }
        if v < 128 {
            out.push(v as u8);
            return;
        }
        out.push(#[verifier::truncate] (((v & 0x7f) | 0x80) as u8));
        proof {
            lemma_shift_step(x, (7 * k) as u32);
            assert(out@ + varint_bytes_from(x, (k + 1) as nat) =~= old(out)@ + varint_bytes(
                value.0,
            ));
        }
        v = v >> 7;
        k = k + 1;
    }
}

/// The encoding of `value` on its own.
pub fn encode_varint(value: VarInt) -> (r: Vec<u8>)
    ensures
        r@ == varint_bytes(value.0),
{
    let mut out: Vec<u8> = Vec::new();
    write_varint(&mut out, value);
    assert(out@ =~= varint_bytes(value.0));
    out
}

/// The number of bytes that encode `value`.
pub fn varint_length(value: VarInt) -> (r: usize)
    ensures
        r == varint_bytes(value.0).len(),
        1 <= r <= 5,
{
    proof {
        lemma_varint_length(value.0);
    }
    #[verifier::truncate]
    let x: u32 = value.0 as u32;
    let mut v: u32 = x;
    assert(x >> 0u32 == x) by (bit_vector);
    let mut k: usize = 0;
    loop
        invariant
            k <= 4,
            v == groups_of(x, k as nat),
            k + varint_bytes_from(x, k as nat).len() == varint_bytes(value.0).len(),
        decreases 4 - k,
    {
        if k == 4 {
            proof {
                lemma_top_group_small(x);
            }
        }
        if v < 128 {
            return k + 1;
        }
        proof {
            lemma_shift_step(x, (7 * k) as u32);
        }
        v = v >> 7;
        k = k + 1;
    }
}

/// Reads the VarInt that starts at `pos` in `data`; on success gives it and
/// the position just after it.
pub fn read_varint(data: &[u8], pos: usize) -> (r: Result<(VarInt, usize), VarIntError>)
    requires
        pos <= data@.len(),
    ensures
        ({
            let rest = data@.subrange(pos as int, data@.len() as int);
            match r {
                Ok((v, next)) => pos < next <= data@.len() && parse_varint(rest) == Some((v.0, (next - pos) as nat)),
                Err(VarIntError::TooLong) => parse_varint(rest) is None && varint_too_long(rest),
                Err(VarIntError::Incomplete) => parse_varint(rest) is None && !varint_too_long(
                    rest,
                ),
            }
        }),
{
    let ghost rest = data@.subrange(pos as int, data@.len() as int);
    let mut value: u32 = 0;
    let mut k: usize = 0;
    assert(rest.subrange(0, rest.len() as int) =~= rest);
    loop
        invariant
            k < 5,
            pos <= data@.len(),
            rest == data@.subrange(pos as int, data@.len() as int),
            k <= rest.len(),
            forall|i: int| 0 <= i < k ==> #[trigger] rest[i] & 0x80 != 0,
            parse_groups(rest, 0, 0) == match parse_groups(
                rest.subrange(k as int, rest.len() as int),
                k as nat,
                value,
            ) {
                Some((v, n)) => Some((v, (n + k) as nat)),
                None => None,
            },
        decreases 5 - k,
    {
        let ghost tail = rest.subrange(k as int, rest.len() as int);
        if k >= data.len() - pos {
            proof {
                assert(tail.len() == 0);
                if varint_too_long(rest) {
                    assert(rest.len() >= 5);
                }
            }
            return Err(VarIntError::Incomplete);
        }
        let byte = data[pos + k];
        assert(tail[0] == byte);
        value = value | (((byte & 0x7f) as u32) << ((7 * k) as u32));
        if byte & 0x80 == 0 {
            proof {
                if varint_too_long(rest) {
                    assert(rest[k as int] & 0x80 != 0);
                }
            }
            return Ok((VarInt(#[verifier::truncate] (value as i32)), pos + k + 1));
        }
        assert(tail.drop_first() =~= rest.subrange(k + 1, rest.len() as int));
        k = k + 1;
        if k >= 5 {
            proof {
                assert forall|i: int| 0 <= i < 5 implies #[trigger] rest[i] & 0x80 != 0 by {}
            }
            return Err(VarIntError::TooLong);
        }
    }
}

} // verus!
