//! Computations behind scanning watched files.
use vstd::prelude::*;

use sha2::Digest;

verus! {

/// The SHA-256 digest of `data`.
pub uninterp spec fn sha256(data: Seq<u8>) -> Seq<u8>;

/// `<sha2::Sha256 as Digest>::digest`, as a vector: the 32-byte SHA-256
/// digest of `data`.
#[verifier::external_body]
fn sha256_digest(data: &[u8]) -> (d: Vec<u8>)
    ensures
        d@ == sha256(data@),
        d@.len() == 32,
{
    sha2::Sha256::digest(data).to_vec()
}

/// The SHA-256 digest of `data`, which identifies a file's content.
pub fn hash_data(data: Vec<u8>) -> (h: Vec<u8>)
    ensures
        h@ == sha256(data@),
        h@.len() == 32,
{
    sha256_digest(data.as_slice())
}

} // verus!
