//! The content hash of a ceremony record: lowercase hex of the SHA-256 of
//! the record's canonical CBOR encoding (the encoding itself is produced
//! where records are serialized; here the notary hashes its bytes).
use vstd::prelude::*;
use sha2::Digest;

verus! {

/// The SHA-256 digest of `data`.
pub uninterp spec fn sha256_digest(data: Seq<u8>) -> Seq<u8>;

/// SHA-256 of `data`, computed by `sha2::Sha256::digest` (the `Digest`
/// trait's one-shot hash): the result is the digest of exactly these
/// bytes, and a SHA-256 digest is 32 bytes long.
#[verifier::external_body]
fn sha256(data: &[u8]) -> (digest: Vec<u8>)
    ensures
        digest@ == sha256_digest(data@),
        digest@.len() == 32,
{
    sha2::Sha256::digest(data).to_vec()
}

/// The lowercase hex digit for a nibble.
pub open spec fn hex_digit(n: int) -> char {
    if n < 10 {
        (('0' as u32) + n) as char
    } else {
        (('a' as u32) + n - 10) as char
    }
}

/// Lowercase hex of `bytes`, two digits per byte, high nibble first.
pub open spec fn hex_lower(bytes: Seq<u8>) -> Seq<char>
    decreases bytes.len(),
{
    if bytes.len() == 0 {
        Seq::empty()
    } else {
        seq![hex_digit((bytes[0] / 16) as int), hex_digit((bytes[0] % 16) as int)] + hex_lower(bytes.drop_first())
    }
}

pub proof fn lemma_hex_lower_len(bytes: Seq<u8>)
    ensures
        hex_lower(bytes).len() == 2 * bytes.len(),
    decreases bytes.len(),
{
    if bytes.len() > 0 {
        lemma_hex_lower_len(bytes.drop_first());
    }
}

/// `hex::encode`: each byte becomes two lowercase hex digits, high nibble
/// first, in order.
#[verifier::external_body]
fn hex_encode(data: &[u8]) -> (s: String)
    ensures
        s@ == hex_lower(data@),
{
    hex::encode(data)
}

/// The content hash for a SHA-256 digest: its lowercase hex, two
/// characters per byte.
pub fn digest_hex(digest: &[u8]) -> (h: String)
    ensures
        h@ == hex_lower(digest@),
        h@.len() == 2 * digest@.len(),
{
    proof {
        lemma_hex_lower_len(digest@);
    }
    hex_encode(digest)
}

/// The content hash of a record whose canonical encoding is `encoded`:
/// lowercase hex of its SHA-256, 64 characters.
pub fn compute_content_hash(encoded: &[u8]) -> (h: String)
    ensures
        h@ == hex_lower(sha256_digest(encoded@)),
        h@.len() == 64,
{
    let digest = sha256(encoded);
    digest_hex(digest.as_slice())
}

} // verus!
