//! Checking downloaded artifacts against the size and digest their catalog
//! advertises before anything is written to the cache.
use vstd::prelude::*;

verus! {

/// The SHA-1 digest of `b`.
pub uninterp spec fn sha1_of(b: Seq<u8>) -> Seq<u8>;

/// The SHA-256 digest of `b`.
pub uninterp spec fn sha256_of(b: Seq<u8>) -> Seq<u8>;

/// Relies on `sha1::Sha1::digest`: the SHA-1 digest of the bytes, twenty bytes long.
#[verifier::external_body]
fn sha1_digest(b: &[u8]) -> (r: Vec<u8>)
    ensures
        r@ == sha1_of(b@),
        r@.len() == 20,
{
    <sha1::Sha1 as sha1::Digest>::digest(b).to_vec()
}

/// Relies on `sha2::Sha256::digest`: the SHA-256 digest of the bytes, thirty-two bytes long.
#[verifier::external_body]
fn sha256_digest(b: &[u8]) -> (r: Vec<u8>)
    ensures
        r@ == sha256_of(b@),
        r@.len() == 32,
{
    <sha2::Sha256 as sha2::Digest>::digest(b).to_vec()
}

/// The value of a hexadecimal digit, either case.
pub open spec fn hex_digit(c: char) -> Option<u8> {
    if '0' <= c <= '9' {
        Some((c as u32 - 48) as u8)
    } else if 'a' <= c <= 'f' {
        Some((c as u32 - 87) as u8)
    } else if 'A' <= c <= 'F' {
        Some((c as u32 - 55) as u8)
    } else {
        None
    }
}

/// `s` is an even number of hexadecimal digits.
pub open spec fn is_hex(s: Seq<char>) -> bool {
    s.len() % 2 == 0 && forall|i: int| 0 <= i < s.len() ==> #[trigger] hex_digit(s[i]) is Some
}

/// `b` is what the hexadecimal text `s` spells, two digits a byte, high digit first.
pub open spec fn hex_spells(s: Seq<char>, b: Seq<u8>) -> bool {
    &&& s.len() == 2 * b.len()
    &&& forall|i: int| 0 <= i < b.len() ==> #[trigger] b[i] as int == 16 * (hex_digit(s[2 * i])->Some_0 as int) + (hex_digit(s[2 * i + 1])->Some_0 as int)
}

/// Relies on `hex::decode`: the bytes an even number of hexadecimal digits
/// (either case) spell, else an error.
#[verifier::external_body]
fn hex_decode(s: &str) -> (r: Option<Vec<u8>>)
    ensures
        r is Some <==> is_hex(s@),
        r matches Some(b) ==> hex_spells(s@, b@),
{
    hex::decode(s).ok()
}

/// Why a download was rejected.
#[derive(Debug, Clone, Copy, PartialEq, Eq, Structural)]
pub enum IntegrityError {
    /// Its length is not the advertised size.
    SizeMismatch,
    /// The advertised digest is not hexadecimal.
    InvalidDigest,
    /// Its digest is not the advertised one.
    HashMismatch,
}

/// The digest `expected` advertises matches `actual`.
pub open spec fn digest_matches(expected: Seq<char>, actual: Seq<u8>) -> bool {
    is_hex(expected) && exists|b: Seq<u8>| hex_spells(expected, b) && b == actual
}

fn bytes_equal(a: &[u8], b: &[u8]) -> (r: bool)
    ensures
        r == (a@ == b@),
{
    if a.len() != b.len() {
        return false;
    }
    let mut i: usize = 0;
    while i < a.len()
        invariant
            i <= a@.len() == b@.len(),
            forall|k: int| 0 <= k < i ==> a@[k] == b@[k],
        decreases a@.len() - i,
    {
        if a[i] != b[i] {
            return false;
        }
        i = i + 1;
    }
    assert(a@ =~= b@);
    true
}

proof fn lemma_hex_spells_unique(s: Seq<char>, b1: Seq<u8>, b2: Seq<u8>)
    requires
        hex_spells(s, b1),
        hex_spells(s, b2),
    ensures
        b1 == b2,
{
    assert forall|i: int| 0 <= i < b1.len() implies b1[i] == b2[i] by {
        assert(b1[i] as int == b2[i] as int);
    }
    assert(b1 =~= b2);
}

/// Checks a download against its advertised size and SHA-1 digest (in
/// hexadecimal), in that order.
pub fn verify_sha1(bytes: &[u8], expected_size: u64, expected_sha1: &str) -> (r: Result<(), IntegrityError>)
    ensures
        match r {
            Ok(()) => bytes@.len() == expected_size && digest_matches(expected_sha1@, sha1_of(bytes@)),
            Err(IntegrityError::SizeMismatch) => bytes@.len() != expected_size,
            Err(IntegrityError::InvalidDigest) => bytes@.len() == expected_size && !is_hex(expected_sha1@),
            Err(IntegrityError::HashMismatch) => bytes@.len() == expected_size && is_hex(expected_sha1@) && !digest_matches(expected_sha1@, sha1_of(bytes@)),
        },
{
    if bytes.len() as u64 != expected_size {
        return Err(IntegrityError::SizeMismatch);
    }
    check_digest(sha1_digest(bytes), expected_sha1)
}

/// Checks a download against its advertised SHA-256 digest (in hexadecimal).
pub fn verify_sha256(bytes: &[u8], expected_sha256: &str) -> (r: Result<(), IntegrityError>)
    ensures
        match r {
            Ok(()) => digest_matches(expected_sha256@, sha256_of(bytes@)),
            Err(IntegrityError::InvalidDigest) => !is_hex(expected_sha256@),
            Err(IntegrityError::HashMismatch) => is_hex(expected_sha256@) && !digest_matches(expected_sha256@, sha256_of(bytes@)),
            Err(IntegrityError::SizeMismatch) => false,
        },
{
    check_digest(sha256_digest(bytes), expected_sha256)
}

/// Compares a computed digest with the advertised one in hexadecimal.
pub fn check_digest(actual: Vec<u8>, expected: &str) -> (r: Result<(), IntegrityError>)
    ensures
        match r {
            Ok(()) => digest_matches(expected@, actual@),
            Err(IntegrityError::InvalidDigest) => !is_hex(expected@),
            Err(IntegrityError::HashMismatch) => is_hex(expected@) && !digest_matches(expected@, actual@),
            Err(IntegrityError::SizeMismatch) => false,
        },
{
    match hex_decode(expected) {
        None => Err(IntegrityError::InvalidDigest),
        Some(b) => {
            if bytes_equal(b.as_slice(), actual.as_slice()) {
                Ok(())
            } else {
                proof {
                    if digest_matches(expected@, actual@) {
                        let w = choose|w: Seq<u8>| hex_spells(expected@, w) && w == actual@;
                        lemma_hex_spells_unique(expected@, w, b@);
                    }
                }
                Err(IntegrityError::HashMismatch)
            }
        },
    }
}

} // verus!
