//! Hashing a byte string to a scalar.

use crate::bytes::be_nat;
use crate::scalar::{group_order, Scalar};
use sha2::Digest;
use vstd::prelude::*;

verus! {

/// The SHA-256 digest of a byte string.
pub uninterp spec fn sha256_digest(data: Seq<u8>) -> Seq<u8>;

/// The scalar that a byte string hashes to: its digest, read big-endian and
/// reduced modulo the group order.
pub open spec fn scalar_of_hash(data: Seq<u8>) -> nat {
    be_nat(sha256_digest(data)) % group_order()
}

/// `Sha256::digest` of sha2: the digest of the whole input, 32 bytes long.
#[verifier::external_body]
fn sha256(data: &Vec<u8>) -> (r: Vec<u8>)
    ensures
        r@ == sha256_digest(data@),
        r@.len() == 32,
{
    sha2::Sha256::digest(data).to_vec()
}

/// Hashes `data` and reduces the digest into the scalars. The reduction is
/// total: no digest is refused.
pub fn hash_to_scalar(data: &Vec<u8>) -> (r: Scalar)
    ensures
        r.wf(),
        r@ == scalar_of_hash(data@),
{
    let digest = sha256(data);
    Scalar::from_bytes_reduced(&digest)
}

} // verus!
