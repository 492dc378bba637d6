//! Claim ids and storage keys.

use vstd::prelude::*;
use crate::scale::{encode_lockdrop, lockdrop_bytes};
use crate::types::{AuthorityId, ClaimId, Lockdrop};

verus! {

/// The hash that `BlakeTwo256` gives of some bytes.
pub uninterp spec fn blake_two_256_of(data: Seq<u8>) -> [u8; 32];

/// Calls `sp_runtime::traits::BlakeTwo256::hash`, the 256-bit BLAKE2b hash, and names its result.
#[verifier::external_body]
fn blake_two_256(data: &[u8]) -> (hash: [u8; 32])
    ensures
        hash == blake_two_256_of(data@),
{
    <sp_runtime::traits::BlakeTwo256 as sp_runtime::traits::Hash>::hash(data).to_fixed_bytes()
}

/// The id of the claim that parameters make: the hash of their encoding.
pub open spec fn claim_id_of(params: Lockdrop) -> ClaimId {
    blake_two_256_of(lockdrop_bytes(params))
}

/// Computes the id of a claim.
pub fn claim_id(params: &Lockdrop) -> (id: ClaimId)
    ensures
        id == claim_id_of(*params),
{
    blake_two_256(encode_lockdrop(params).as_slice())
}

/// The storage key that `Blake2_128Concat` makes of an encoded map key.
pub uninterp spec fn blake2_128_concat_of(data: Seq<u8>) -> Seq<u8>;

/// Calls `frame_support::Blake2_128Concat::hash` and names its result: sixteen bytes of hash,
/// then the data itself.
#[verifier::external_body]
fn blake2_128_concat(data: &[u8]) -> (key: Vec<u8>)
    ensures
        key@ == blake2_128_concat_of(data@),
        key@.len() == 16 + data@.len(),
        key@.skip(16) == data@,
{
    <frame_support::Blake2_128Concat as frame_support::StorageHasher>::hash(data)
}

/// The place of an authority in the order in which a map of authorities is walked.
pub open spec fn storage_key_of(authority: AuthorityId) -> Seq<u8> {
    blake2_128_concat_of(authority@)
}

/// Computes the storage key of an authority.
pub fn storage_key(authority: &AuthorityId) -> (key: Vec<u8>)
    ensures
        key@ == storage_key_of(*authority),
        key@.len() == 48,
        key@.skip(16) == authority@,
{
    blake2_128_concat(authority.as_slice())
}

} // verus!
