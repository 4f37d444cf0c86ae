//! Randomness derivation: every random byte the engine uses is a
//! SHA-256 digest of plain values — block data and a nonce, or an
//! oracle round seed — so outcomes are a pure function of those
//! values.

use vstd::prelude::*;

verus! {

/// The SHA-256 digest of a byte string. The digest depends on the
/// bytes alone; its value is stated nowhere and flows opaquely through
/// the contracts of everything derived from it.
pub uninterp spec fn sha256_of(bytes: Seq<u8>) -> Seq<u8>;

/// Relies on sha2's `Sha256` (through the `Digest` trait): computes
/// the SHA-256 digest of the input, which is always 32 bytes.
#[verifier::external_body]
pub(crate) fn sha256(input: &Vec<u8>) -> (r: Vec<u8>)
    ensures
        r@ == sha256_of(input@),
        r@.len() == 32,
{
    let digest = <sha2::Sha256 as sha2::Digest>::digest(input.as_slice());
    let mut out = Vec::new();
    out.extend_from_slice(&digest);
    out
}

/// Byte `i` of a 64-bit value, little-endian.
pub open spec fn spec_u64_le_byte(x: u64, i: int) -> u8 {
    ((x >> (8 * i)) & 0xff) as u8
}

/// The eight little-endian bytes of a 64-bit value.
pub open spec fn spec_u64_le(x: u64) -> Seq<u8> {
    Seq::new(8, |i: int| spec_u64_le_byte(x, i))
}

/// The eight big-endian bytes of a 64-bit value.
pub open spec fn spec_u64_be(x: u64) -> Seq<u8> {
    Seq::new(8, |i: int| spec_u64_le_byte(x, 7 - i))
}

/// Serialises a 64-bit value little-endian.
pub fn u64_le_bytes(x: u64) -> (r: Vec<u8>)
    ensures
        r@ == spec_u64_le(x),
{
    let mut out: Vec<u8> = Vec::new();
    let mut i: u64 = 0;
    while i < 8
        invariant
            i <= 8,
            out@.len() == i,
            forall|j: int| 0 <= j < i ==> out@[j] == spec_u64_le_byte(x, j),
        decreases 8 - i,
    {
        out.push(((x >> (8 * i)) & 0xff) as u8);
        i = i + 1;
    }
    proof {
        assert(out@ =~= spec_u64_le(x));
    }
    out
}

/// Serialises a 64-bit value big-endian.
pub fn u64_be_bytes(x: u64) -> (r: Vec<u8>)
    ensures
        r@ == spec_u64_be(x),
{
    let mut out: Vec<u8> = Vec::new();
    let mut i: u64 = 0;
    while i < 8
        invariant
            i <= 8,
            out@.len() == i,
            forall|j: int| 0 <= j < i ==> out@[j] == spec_u64_le_byte(x, 7 - j),
        decreases 8 - i,
    {
        out.push(((x >> (8 * (7 - i))) & 0xff) as u8);
        i = i + 1;
    }
    proof {
        assert(out@ =~= spec_u64_be(x));
    }
    out
}

/// The ASCII decimal digits of a 64-bit value, most significant first.
pub open spec fn spec_u64_dec_bytes(x: u64) -> Seq<u8>
    decreases x,
{
    if x < 10 {
        seq![(48 + x) as u8]
    } else {
        spec_u64_dec_bytes((x / 10) as u64).push((48 + x % 10) as u8)
    }
}

/// Renders a 64-bit value as ASCII decimal digits, the form entity
/// ids take in hash inputs and registry commands.
pub fn u64_dec_bytes(x: u64) -> (r: Vec<u8>)
    ensures
        r@ == spec_u64_dec_bytes(x),
    decreases x,
{
    if x < 10 {
        let mut out: Vec<u8> = Vec::new();
        out.push((48 + x) as u8);
        proof {
            assert(out@ =~= spec_u64_dec_bytes(x));
        }
        out
    } else {
        let mut out = u64_dec_bytes(x / 10);
        out.push((48 + x % 10) as u8);
        out
    }
}

/// The message whose digest seeds block-data randomness: block time,
/// block height and the nonce, each little-endian.
pub open spec fn spec_randomness_msg(time_nanos: u64, height: u64, nonce: u64) -> Seq<u8> {
    spec_u64_le(time_nanos) + spec_u64_le(height) + spec_u64_le(nonce)
}

/// One pseudo-random byte from block data and a nonce: the first
/// digest byte of their serialisation.
pub fn randomness_byte(time_nanos: u64, height: u64, nonce: u64) -> (r: u8)
    ensures
        r == sha256_of(spec_randomness_msg(time_nanos, height, nonce))[0],
{
    let mut msg = u64_le_bytes(time_nanos);
    let height_bytes = u64_le_bytes(height);
    let nonce_bytes = u64_le_bytes(nonce);
    msg.extend_from_slice(height_bytes.as_slice());
    msg.extend_from_slice(nonce_bytes.as_slice());
    proof {
        assert(msg@ =~= spec_randomness_msg(time_nanos, height, nonce));
    }
    let digest = sha256(&msg);
    digest[0]
}

} // verus!
