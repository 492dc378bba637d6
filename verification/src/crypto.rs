//! Checking the signatures of authorities.

use vstd::prelude::*;
use crate::types::{AuthorityId, AuthoritySignature, Scheme};

verus! {

/// Whether sr25519 verification takes a signature for good.
pub uninterp spec fn sr25519_accepts(
    signature: Seq<u8>,
    message: Seq<u8>,
    public: Seq<u8>,
) -> bool;

/// Calls `sp_core::sr25519::Pair::verify` and names its verdict on the three byte strings.
#[verifier::external_body]
fn sr25519_verify(signature: &[u8; 64], message: &[u8], public: &[u8; 32]) -> (good: bool)
    ensures
        good == sr25519_accepts(signature@, message@, public@),
{
    <sp_core::sr25519::Pair as sp_core::Pair>::verify(
        &sp_core::sr25519::Signature::from_raw(*signature),
        message,
        &sp_core::sr25519::Public::from_raw(*public),
    )
}

/// Whether ed25519 verification takes a signature for good.
pub uninterp spec fn ed25519_accepts(
    signature: Seq<u8>,
    message: Seq<u8>,
    public: Seq<u8>,
) -> bool;

/// Calls `sp_core::ed25519::Pair::verify` and names its verdict on the three byte strings.
#[verifier::external_body]
fn ed25519_verify(signature: &[u8; 64], message: &[u8], public: &[u8; 32]) -> (good: bool)
    ensures
        good == ed25519_accepts(signature@, message@, public@),
{
    <sp_core::ed25519::Pair as sp_core::Pair>::verify(
        &sp_core::ed25519::Signature::from_raw(*signature),
        message,
        &sp_core::ed25519::Public::from_raw(*public),
    )
}

/// Whether an authority's signature of a message is good.
pub open spec fn accepts(
    scheme: Scheme,
    authority: AuthorityId,
    message: Seq<u8>,
    signature: AuthoritySignature,
) -> bool {
    match scheme {
        Scheme::Sr25519 => sr25519_accepts(signature@, message, authority@),
        Scheme::Ed25519 => ed25519_accepts(signature@, message, authority@),
    }
}

/// Checks an authority's signature of a message.
pub fn verify(
    scheme: Scheme,
    authority: &AuthorityId,
    message: &[u8],
    signature: &AuthoritySignature,
) -> (good: bool)
    ensures
        good == accepts(scheme, *authority, message@, *signature),
{
    match scheme {
        Scheme::Sr25519 => sr25519_verify(signature, message, authority),
        Scheme::Ed25519 => ed25519_verify(signature, message, authority),
    }
}

} // verus!
