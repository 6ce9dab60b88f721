//! SHA-256 digests of byte sequences, rendered as lower-case hexadecimal.
use vstd::prelude::*;
use sha2::Digest;
use crate::text::{hex_encode, hex_of};

verus! {

/// The SHA-256 digest of a byte sequence.
pub uninterp spec fn sha256_of(b: Seq<u8>) -> Seq<u8>;

/// Relies on `sha2::Sha256::digest`: the 32-byte SHA-256 digest of the input.
#[verifier::external_body]
fn sha256(b: &[u8]) -> (r: Vec<u8>)
    ensures
        r@ == sha256_of(b@),
        r@.len() == 32,
{
    sha2::Sha256::digest(b).to_vec()
}

/// The hexadecimal SHA-256 digest of `data`: 64 lower-case hex digits.
pub fn gen(data: &[u8]) -> (r: String)
    ensures
        r@ == hex_of(sha256_of(data@)),
        r@.len() == 64,
{
    let d = sha256(data);
    proof { lemma_hex_len(d@); }
    hex_encode(d.as_slice())
}

/// The hexadecimal form is twice as long as its input.
pub proof fn lemma_hex_len(b: Seq<u8>)
    ensures
        hex_of(b).len() == 2 * b.len(),
    decreases b.len(),
{
    if b.len() > 0 {
        lemma_hex_len(b.drop_last());
    }
}

} // verus!
