//! Content digests of encoded audio payloads.
use crate::protocol::types::{AudioChunkV1, DigestAlgorithmV1};
use crate::text::push_char;
use vstd::prelude::*;

verus! {

/// The SHA-256 digest of a byte string.
pub uninterp spec fn sha256_of(data: Seq<u8>) -> Seq<u8>;

/// The BLAKE3 (default 32-byte output) hash of a byte string.
pub uninterp spec fn blake3_of(data: Seq<u8>) -> Seq<u8>;

/// `sha2::Sha256::digest`: the 32-byte SHA-256 digest of `data`.
#[verifier::external_body]
fn sha256_bytes(data: &[u8]) -> (r: Vec<u8>)
    ensures
        r@ == sha256_of(data@),
        r@.len() == 32,
{
    <sha2::Sha256 as sha2::Digest>::digest(data).to_vec()
}

/// `blake3::hash`: the 32-byte BLAKE3 hash of `data`.
#[verifier::external_body]
fn blake3_bytes(data: &[u8]) -> (r: Vec<u8>)
    ensures
        r@ == blake3_of(data@),
        r@.len() == 32,
{
    blake3::hash(data).as_bytes().to_vec()
}

pub open spec fn hex_digit(v: u8) -> char
    recommends
        v < 16,
{
    if v < 10 {
        ((48 + v) as u32) as char
    } else {
        ((87 + v) as u32) as char
    }
}

/// Lowercase hexadecimal text of a byte string, two digits per byte.
pub open spec fn lower_hex(bytes: Seq<u8>) -> Seq<char>
    decreases bytes.len(),
{
    if bytes.len() == 0 {
        seq![]
    } else {
        seq![hex_digit(bytes[0] / 16), hex_digit(bytes[0] % 16)] + lower_hex(bytes.drop_first())
    }
}

fn hex_char(v: u8) -> (c: char)
    requires
        v < 16,
    ensures
        c == hex_digit(v),
{
    if v < 10 {
        (v + 48) as char
    } else {
        (v + 87) as char
    }
}

proof fn lemma_lower_hex_split(bytes: Seq<u8>, i: int)
    requires
        0 <= i < bytes.len(),
    ensures
        lower_hex(bytes.take(i + 1)) == lower_hex(bytes.take(i)) + seq![
            hex_digit(bytes[i] / 16),
            hex_digit(bytes[i] % 16),
        ],
    decreases i,
{
    if i == 0 {
        assert(bytes.take(1).drop_first() =~= Seq::<u8>::empty());
        assert(bytes.take(0) =~= Seq::<u8>::empty());
    } else {
        let t = bytes.drop_first();
        lemma_lower_hex_split(t, i - 1);
        assert(bytes.take(i + 1).drop_first() =~= t.take(i));
        assert(bytes.take(i).drop_first() =~= t.take(i - 1));
    }
}

/// Lowercase hexadecimal encoding of a byte string.
pub fn to_lower_hex(bytes: &[u8]) -> (r: String)
    ensures
        r@ == lower_hex(bytes@),
{
    let mut out = String::new();
    let mut i: usize = 0;
    while i < bytes.len()
        invariant
            i <= bytes.len(),
            out@ == lower_hex(bytes@.take(i as int)),
        decreases bytes.len() - i,
    {
        let b = bytes[i];
        push_char(&mut out, hex_char(b / 16));
        push_char(&mut out, hex_char(b % 16));
        proof {
            lemma_lower_hex_split(bytes@, i as int);
            assert(out@ =~= lower_hex(bytes@.take(i as int)) + seq![hex_digit(b / 16), hex_digit(b % 16)]);
        }
        i = i + 1;
    }
    assert(bytes@.take(bytes.len() as int) =~= bytes@);
    out
}

/// The lowercase hex digest of a payload under the declared algorithm.
pub open spec fn digest_text(algorithm: DigestAlgorithmV1, payload: Seq<u8>) -> Seq<char> {
    match algorithm {
        DigestAlgorithmV1::Sha256 => lower_hex(sha256_of(payload)),
        DigestAlgorithmV1::Blake3 => lower_hex(blake3_of(payload)),
    }
}

/// Whether a digest, written in lowercase hex, is exactly `hex`.
pub fn digest_hex_matches(digest: &[u8], hex: &String) -> (r: bool)
    ensures
        r == (lower_hex(digest@) == hex@),
{
    let actual = to_lower_hex(digest);
    actual == *hex
}

/// Whether a chunk's payload matches its declared digest.
pub fn payload_digest_matches(chunk: &AudioChunkV1) -> (r: bool)
    ensures
        r == (digest_text(chunk.payload_digest.algorithm, chunk.payload@) == chunk.payload_digest.hex@),
{
    let digest = match chunk.payload_digest.algorithm {
        DigestAlgorithmV1::Sha256 => sha256_bytes(chunk.payload.as_slice()),
        DigestAlgorithmV1::Blake3 => blake3_bytes(chunk.payload.as_slice()),
    };
    digest_hex_matches(digest.as_slice(), &chunk.payload_digest.hex)
}

} // verus!
