//! Who the oracle is: its id and its public keys.
use vstd::prelude::*;
use crate::curve::{secp_keypair_from_secret, PublicKey, Secp256k1};
use crate::text::string_of;

verus! {

/// The keys under which the oracle's announcements and attestations verify.
#[derive(Clone, Copy, Debug)]
pub struct OracleKeys {
    pub olivia_v1: Option<PublicKey>,
    pub ecdsa_v1: Option<PublicKey>,
    pub announcement: PublicKey,
    pub group: Secp256k1,
}

/// An oracle's id and its keys.
#[derive(Clone, Debug)]
pub struct OracleInfo {
    pub id: String,
    pub oracle_keys: OracleKeys,
}

/// Two optional keys hold the same bytes.
pub open spec fn same_opt_key(a: Option<PublicKey>, b: Option<PublicKey>) -> bool {
    match (a, b) {
        (Some(x), Some(y)) => x.0@ == y.0@,
        (None, None) => true,
        _ => false,
    }
}

impl OracleInfo {
    /// The oracle of tests, `oracle.test`, with the test key pair's public key for
    /// each of its keys.
    pub fn test_oracle_info() -> (r: Option<OracleInfo>)
        ensures
            match r {
                Some(info) => {
                    &&& info.id@ == "oracle.test"@
                    &&& secp_keypair_from_secret(seq![42u8; 32]) matches Some(kp)
                    &&& info.oracle_keys.announcement.0@ == kp.1
                    &&& info.oracle_keys.olivia_v1 matches Some(o) && o.0@ == kp.1
                    &&& info.oracle_keys.ecdsa_v1 matches Some(e) && e.0@ == kp.1
                },
                None => secp_keypair_from_secret(seq![42u8; 32]) is None,
            },
    {
        match Secp256k1::test_keypair() {
            Some(kp) => Some(OracleInfo {
                id: string_of("oracle.test"),
                oracle_keys: OracleKeys {
                    olivia_v1: Some(kp.public_key()),
                    ecdsa_v1: Some(kp.public_key()),
                    announcement: kp.public_key(),
                    group: Secp256k1,
                },
            }),
            None => None,
        }
    }
}

impl OracleKeys {
    /// The keys hold the same bytes as `other`'s.
    pub open spec fn same_keys(&self, other: &OracleKeys) -> bool {
        &&& same_opt_key(self.olivia_v1, other.olivia_v1)
        &&& same_opt_key(self.ecdsa_v1, other.ecdsa_v1)
        &&& self.announcement.0@ == other.announcement.0@
    }

    /// Compares the keys byte for byte.
    pub fn eq_keys(&self, other: &OracleKeys) -> (b: bool)
        ensures
            b == self.same_keys(other),
    {
        eq_opt_key(&self.olivia_v1, &other.olivia_v1) && eq_opt_key(&self.ecdsa_v1, &other.ecdsa_v1)
            && bytes32_eq(&self.announcement.0, &other.announcement.0)
    }

    /// Fixed keys for tests: the x-coordinates `[13; 32]`, `[14; 32]` and `[16; 32]`.
    pub fn test_oracle_keys() -> (k: OracleKeys)
        ensures
            k.announcement.0@ == seq![13u8; 32],
            k.ecdsa_v1 matches Some(e) && e.0@ == seq![14u8; 32],
            k.olivia_v1 matches Some(o) && o.0@ == seq![16u8; 32],
    {
        let k = OracleKeys {
            announcement: PublicKey([13u8; 32]),
            ecdsa_v1: Some(PublicKey([14u8; 32])),
            olivia_v1: Some(PublicKey([16u8; 32])),
            group: Secp256k1,
        };
        assert(k.announcement.0@ =~= seq![13u8; 32]);
        k
    }
}

fn eq_opt_key(a: &Option<PublicKey>, b: &Option<PublicKey>) -> (r: bool)
    ensures
        r == same_opt_key(*a, *b),
{
    match (a, b) {
        (Some(x), Some(y)) => bytes32_eq(&x.0, &y.0),
        (None, None) => true,
        _ => false,
    }
}

/// Compares two 32-byte arrays.
pub fn bytes32_eq(a: &[u8; 32], b: &[u8; 32]) -> (r: bool)
    ensures
        r == (a@ == b@),
{
    let mut i: usize = 0;
    while i < 32
        invariant
            i <= 32,
            a@.len() == 32,
            b@.len() == 32,
            forall|j: int| 0 <= j < i ==> a@[j] == b@[j],
        decreases 32 - i,
    {
        if a[i] != b[i] {
            return false;
        }
        i = i + 1;
    }
    assert(a@ =~= b@);
    true
}

} // verus!
