//! The oracle's secret seed, from which every key and every random outcome is derived.
use vstd::prelude::*;
use blake2::digest::{Digest, Update, VariableOutput};

verus! {

/// Keyed BLAKE2b with a 64-byte output, as `blake2::Blake2b` keyed through `NewMac` computes it.
pub uninterp spec fn blake2b_keyed_64(key: Seq<u8>, data: Seq<u8>) -> Seq<u8>;

/// Keyed BLAKE2b with a 32-byte output, as `blake2::VarBlake2b::new_keyed(key, 32)` computes it.
pub uninterp spec fn blake2b_keyed_32(key: Seq<u8>, data: Seq<u8>) -> Seq<u8>;

/// `blake2::Blake2b` keyed with `key` (through `NewMac::new`), fed `data`, finalized.
///
/// The contract names the digest; it states nothing of its bytes.
#[verifier::external_body]
fn blake2b_keyed(key: &[u8; 64], data: &[u8]) -> (out: [u8; 64])
    ensures
        out@ == blake2b_keyed_64(key@, data@),
{
    let key = blake2::crypto_mac::generic_array::GenericArray::from_slice(key);
    let mut hash: blake2::Blake2b = blake2::crypto_mac::NewMac::new(key);
    Update::update(&mut hash, data);
    let mut out = [0u8; 64];
    out.copy_from_slice(&Digest::finalize(hash));
    out
}

/// `blake2::VarBlake2b::new_keyed(key, 32)`, fed `data`, finalized.
///
/// The contract names the digest; it states nothing of its bytes.
#[verifier::external_body]
fn blake2b_keyed_short(key: &[u8; 64], data: &[u8]) -> (out: [u8; 32])
    ensures
        out@ == blake2b_keyed_32(key@, data@),
{
    let mut hash = blake2::VarBlake2b::new_keyed(key, 32);
    Update::update(&mut hash, data);
    let mut out = [0u8; 32];
    hash.finalize_variable(|res| out.copy_from_slice(res));
    out
}

#[derive(Clone)]
pub struct Seed([u8; 64]);

impl View for Seed {
    type V = Seq<u8>;

    closed spec fn view(&self) -> Seq<u8> {
        self.0@
    }
}

impl Seed {
    pub fn new(bytes: [u8; 64]) -> (s: Self)
        ensures
            s@ == bytes@,
    {
        Self(bytes)
    }

    /// The seed's bytes.
    pub fn as_ref(&self) -> (b: &[u8; 64])
        ensures
            b@ == self@,
    {
        &self.0
    }

    /// The seed derived for `tag`: the keyed 64-byte BLAKE2b of the tag under this seed.
    pub fn child(&self, tag: &[u8]) -> (s: Self)
        ensures
            s@ == blake2b_keyed_64(self@, tag@),
    {
        Seed(blake2b_keyed(&self.0, tag))
    }

    /// The keyed 32-byte BLAKE2b of `data` under this seed.
    pub fn hash_32(&self, data: &[u8]) -> (h: [u8; 32])
        ensures
            h@ == blake2b_keyed_32(self@, data@),
    {
        blake2b_keyed_short(&self.0, data)
    }
}

} // verus!
