//! What an announcement commits to, scheme by scheme.
use vstd::prelude::*;
use crate::curve::PublicNonce;

verus! {

/// The olivia-v1 scheme: one public nonce for each attested index.
#[derive(Debug, Clone)]
pub struct OliviaV1 {
    pub nonces: Vec<PublicNonce>,
}

/// The ecdsa-v1 scheme: the outcome will be signed with the announcement key.
#[derive(Debug, Clone)]
pub struct EcdsaV1 {}

} // verus!
