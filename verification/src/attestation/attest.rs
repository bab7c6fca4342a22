//! What an attestation reveals, scheme by scheme.
use vstd::prelude::*;
use crate::curve::{AttestScalar, EcdsaSignature};

verus! {

/// The olivia-v1 scheme: one scalar for each announced nonce.
#[derive(Debug, Clone)]
pub struct OliviaV1 {
    pub scalars: Vec<AttestScalar>,
}

/// The ecdsa-v1 scheme: a signature on the attestation string.
#[derive(Debug, Clone)]
pub struct EcdsaV1 {
    pub signature: EcdsaSignature,
}

} // verus!
