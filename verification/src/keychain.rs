//! The oracle's keys and nonces, all derived from its secret seed.
//!
//! The seed is narrowed to the group (`secp256k1`), then to a tag per key
//! (`announcement-key`, `olivia-v1-key`, `ecdsa-v1-key`) whose 32-byte keyed hash is
//! the key's secret material; event nonces come from the `oracle-events` seed, narrowed
//! to the event id, hashed with the nonce's index.
use vstd::prelude::*;
use vstd::utf8::encode_utf8;
use crate::announcement::{announce, AnnouncementSchemes, OracleEvent, RawAnnouncement, RawOracleEvent};
use crate::attestation::{attest, spec_verify_attestation, Attestation, AttestationSchemes};
use crate::curve::{
    bip340_sign, ecdsa_sha256_sign, ecdsa_sha256_verify, ecdsa_sign, keypair_from_secret_bytes,
    spec_attest_scalar, spec_verify_attest, secp_keypair_from_secret,
    AttestScalar, EcdsaSignature, KeyPair, PublicKey, PublicNonce, Secp256k1,
};
use crate::event::{lemma_fault_free_kind_parses, spec_event_kind, spec_kind_nonces, spec_n_outcomes, Event, EventId, EventKind};
use crate::oracle_info::OracleKeys;
use crate::outcome::{
    lemma_outcome_string_reads_back, spec_attestation_string, spec_outcome_string, Outcome,
    StampedOutcome,
};
use crate::seed::{blake2b_keyed_32, blake2b_keyed_64, Seed};

verus! {

/// The seed narrowed to the group.
pub open spec fn group_seed(seed: Seq<u8>) -> Seq<u8> {
    blake2b_keyed_64(seed, encode_utf8("secp256k1"@))
}

/// The secret material of the key tagged `tag`.
pub open spec fn key_material(seed: Seq<u8>, tag: Seq<char>) -> Seq<u8> {
    blake2b_keyed_32(blake2b_keyed_64(group_seed(seed), encode_utf8(tag)), seq![])
}

/// The key pair tagged `tag` (`None` when its material is zero modulo the group order).
pub open spec fn derived_keypair(seed: Seq<u8>, tag: Seq<char>) -> Option<(Seq<u8>, Seq<u8>)> {
    secp_keypair_from_secret(key_material(seed, tag))
}

/// The seed that event nonces are derived from.
pub open spec fn events_seed(seed: Seq<u8>) -> Seq<u8> {
    blake2b_keyed_64(group_seed(seed), encode_utf8("oracle-events"@))
}

/// The secret material of the `i`-th nonce of the event `id`.
pub open spec fn nonce_material(event_seed: Seq<u8>, id: Seq<char>, i: u8) -> Seq<u8> {
    blake2b_keyed_32(blake2b_keyed_64(event_seed, encode_utf8(id)), seq![i])
}

/// The `i`-th nonce pair of the event `id`.
pub open spec fn derived_nonce(event_seed: Seq<u8>, id: Seq<char>, i: u8) -> Option<(Seq<u8>, Seq<u8>)> {
    secp_keypair_from_secret(nonce_material(event_seed, id, i))
}

/// The public parts of a list of key pairs.
pub open spec fn public_parts(v: Seq<KeyPair>) -> Seq<Seq<u8>> {
    v.map_values(|kp: KeyPair| kp@.1)
}

/// Derives key pairs from seeds.
pub trait DeriveKeyPair {
    /// The key pair derived from a seed (`None` when its material is zero modulo the
    /// group order).
    spec fn derived_pair(seed: Seq<u8>) -> Option<(Seq<u8>, Seq<u8>)>;

    fn derive_keypair(seed: &Seed) -> (r: Option<KeyPair>)
        ensures
            match r {
                Some(kp) => Self::derived_pair(seed@) == Some(kp@) && kp.wf(),
                None => Self::derived_pair(seed@) is None,
            },
    ;

    fn derive_nonce_keypair(seed: &Seed) -> (r: Option<KeyPair>)
        ensures
            match r {
                Some(kp) => Self::derived_pair(seed@) == Some(kp@) && kp.wf(),
                None => Self::derived_pair(seed@) is None,
            },
    ;
}

impl DeriveKeyPair for Secp256k1 {
    /// The pair of the seed's 32-byte keyed hash of `secp256k1`.
    open spec fn derived_pair(seed: Seq<u8>) -> Option<(Seq<u8>, Seq<u8>)> {
        secp_keypair_from_secret(blake2b_keyed_32(seed, encode_utf8("secp256k1"@)))
    }

    fn derive_keypair(seed: &Seed) -> (r: Option<KeyPair>) {
        keypair_from_secret_bytes(&seed.hash_32(Secp256k1::name().as_bytes()))
    }

    fn derive_nonce_keypair(seed: &Seed) -> (r: Option<KeyPair>) {
        keypair_from_secret_bytes(&seed.hash_32(Secp256k1::name().as_bytes()))
    }
}

/// The oracle's key pairs and the seed of its event nonces.
pub struct KeyChain {
    announcement_keypair: KeyPair,
    olivia_v1_keypair: KeyPair,
    ecdsa_v1_keypair: KeyPair,
    event_seed: Seed,
}

/// The announcement, olivia-v1 and ecdsa-v1 key pairs and the event seed.
pub type KeyChainView = ((Seq<u8>, Seq<u8>), (Seq<u8>, Seq<u8>), (Seq<u8>, Seq<u8>), Seq<u8>);

impl View for KeyChain {
    type V = KeyChainView;

    closed spec fn view(&self) -> KeyChainView {
        (self.announcement_keypair@, self.olivia_v1_keypair@, self.ecdsa_v1_keypair@, self.event_seed@)
    }
}

impl KeyChain {
    /// Each key pair is one that `secp256kfun` makes.
    pub closed spec fn wf(&self) -> bool {
        &&& self.announcement_keypair.wf()
        &&& self.olivia_v1_keypair.wf()
        &&& self.ecdsa_v1_keypair.wf()
    }

    /// The key chain of `seed` is the one `new` derives from it.
    pub open spec fn derived_from(&self, seed: Seq<u8>) -> bool {
        &&& Some(self@.0) == derived_keypair(seed, "announcement-key"@)
        &&& Some(self@.1) == derived_keypair(seed, "olivia-v1-key"@)
        &&& Some(self@.2) == derived_keypair(seed, "ecdsa-v1-key"@)
        &&& self@.3 == events_seed(seed)
    }

    /// `keys` are the key chain's public keys.
    pub open spec fn public_keys_are(&self, keys: OracleKeys) -> bool {
        &&& keys.olivia_v1 matches Some(o) && o.0@ == self@.1.1
        &&& keys.ecdsa_v1 matches Some(e) && e.0@ == self@.2.1
        &&& keys.announcement.0@ == self@.0.1
    }

    /// `oracle_event` commits to ecdsa-v1 and, under olivia-v1, to this key chain's
    /// nonces for its event (to no olivia-v1 scheme for a kind without nonces).
    pub open spec fn announced_by(&self, oracle_event: OracleEvent) -> bool {
        let id = oracle_event.event.id@;
        let n = spec_kind_nonces(spec_event_kind(id));
        &&& oracle_event.schemes@.1
        &&& if n == 0 {
            oracle_event.schemes@.0 is None
        } else {
            oracle_event.schemes@.0 matches Some(nonces) && nonces.len() == n && forall|i: int|
                0 <= i < n ==> nonces[i] == (#[trigger] derived_nonce(self@.3, id, i as u8)).unwrap().1
        }
    }

    /// `a` is this key chain's attestation of the stamped outcome, for an announcement
    /// committing to the schemes of `oracle_event`.
    pub open spec fn attests(&self, oracle_event: OracleEvent, stamped: StampedOutcome, a: Attestation) -> bool {
        let id = stamped.outcome.id@;
        let v = stamped.outcome.value;
        &&& a.outcome@ == spec_outcome_string(id, v)
        &&& a.time.secs == stamped.time.secs && a.time.nanos == 0
        &&& (a.schemes.olivia_v1 is Some <==> oracle_event.schemes.olivia_v1 is Some)
        &&& (a.schemes.olivia_v1 matches Some(o) ==> {
            let nonce = derived_nonce(self@.3, id, 0).unwrap();
            &&& derived_nonce(self@.3, id, 0) is Some
            &&& o.scalars@.len() == 1
            &&& o.scalars@[0].0@ == spec_attest_scalar(self@.1.0, nonce.0, (v as u32) as nat)
            &&& spec_verify_attest(self@.1.1, nonce.1, (v as u32) as nat, o.scalars@[0].0@)
        })
        &&& (a.schemes.ecdsa_v1 is Some <==> oracle_event.schemes.ecdsa_v1 is Some)
        &&& (a.schemes.ecdsa_v1 matches Some(e) ==> e.signature.0@ == ecdsa_sha256_sign(
            self@.0.0,
            spec_attestation_string(id, v),
        ) && ecdsa_sha256_verify(self@.0.1, spec_attestation_string(id, v), e.signature.0@))
    }

    /// Derives the key chain of a seed; `None` when the material of one of its keys is
    /// zero modulo the group order.
    pub fn new(seed: Seed) -> (r: Option<KeyChain>)
        ensures
            r is Some <==> (derived_keypair(seed@, "announcement-key"@) is Some && derived_keypair(
                seed@,
                "olivia-v1-key"@,
            ) is Some && derived_keypair(seed@, "ecdsa-v1-key"@) is Some),
            r matches Some(kc) ==> kc.wf() && kc.derived_from(seed@),
    {
        let seed = seed.child(Secp256k1::name().as_bytes());
        let empty: [u8; 0] = [];
        assert(empty@ =~= Seq::<u8>::empty());
        let announcement_keypair = {
            let key_seed = seed.child("announcement-key".as_bytes());
            keypair_from_secret_bytes(&key_seed.hash_32(&empty))
        };
        let olivia_v1_keypair = {
            let key_seed = seed.child("olivia-v1-key".as_bytes());
            keypair_from_secret_bytes(&key_seed.hash_32(&empty))
        };
        let ecdsa_v1_keypair = {
            let key_seed = seed.child("ecdsa-v1-key".as_bytes());
            keypair_from_secret_bytes(&key_seed.hash_32(&empty))
        };
        match (announcement_keypair, olivia_v1_keypair, ecdsa_v1_keypair) {
            (Some(announcement_keypair), Some(olivia_v1_keypair), Some(ecdsa_v1_keypair)) => {
                Some(KeyChain {
                    event_seed: seed.child("oracle-events".as_bytes()),
                    announcement_keypair,
                    olivia_v1_keypair,
                    ecdsa_v1_keypair,
                })
            },
            _ => None,
        }
    }

    /// The public keys: olivia-v1, ecdsa-v1 and announcement.
    pub fn oracle_public_keys(&self) -> (k: OracleKeys)
        ensures
            self.public_keys_are(k),
    {
        OracleKeys {
            olivia_v1: Some(self.olivia_v1_keypair.public_key()),
            ecdsa_v1: Some(self.ecdsa_v1_keypair.public_key()),
            announcement: self.announcement_keypair.public_key(),
            group: Secp256k1,
        }
    }

    /// The nonce pairs of an event, one per nonce its kind needs; `None` when the
    /// material of one of them is zero modulo the group order.
    #[verifier::loop_isolation(false)]
    pub fn nonces_for_event(&self, event_id: &EventId) -> (r: Option<Vec<KeyPair>>)
        requires
            event_id.wf(),
        ensures
            ({
                let n = spec_kind_nonces(spec_event_kind(event_id@));
                &&& r is Some <==> forall|i: u8| i < n ==> (#[trigger] derived_nonce(self@.3, event_id@, i)) is Some
                &&& r matches Some(v) ==> v@.len() == n && forall|i: int|
                    0 <= i < n ==> Some(#[trigger] v@[i]@) == derived_nonce(self@.3, event_id@, i as u8) && v@[i].wf()
            }),
    {
        let event_seed = self.event_seed.child(event_id.as_bytes());
        let n = event_id.n_nonces();
        let mut nonces: Vec<KeyPair> = Vec::new();
        let mut i: u8 = 0;
        while i < n
            invariant
                i <= n,
                event_seed@ == blake2b_keyed_64(self@.3, encode_utf8(event_id@)),
                nonces@.len() == i,
                forall|j: int|
                    0 <= j < i ==> Some(#[trigger] nonces@[j]@) == derived_nonce(self@.3, event_id@, j as u8)
                        && nonces@[j].wf(),
            decreases n - i,
        {
            let data: [u8; 1] = [i];
            assert(data@ =~= seq![i]);
            match keypair_from_secret_bytes(&event_seed.hash_32(&data)) {
                Some(kp) => {
                    nonces.push(kp);
                },
                None => {
                    assert(derived_nonce(self@.3, event_id@, i) is None);
                    return None;
                },
            }
            i = i + 1;
        }
        assert forall|j: u8| j < n implies (#[trigger] derived_nonce(self@.3, event_id@, j)) is Some by {
            assert(Some(nonces@[j as int]@) == derived_nonce(self@.3, event_id@, j));
        }
        Some(nonces)
    }

    /// The olivia-v1 scalars attesting to the outcome: for the `i`-th attested index,
    /// the scalar of the olivia-v1 key with the event's `i`-th nonce.  `None` when the
    /// material of a nonce is zero modulo the group order.
    #[verifier::loop_isolation(false)]
    pub fn olivia_v1_scalars_for_event_outcome(&self, stamped: &StampedOutcome) -> (r: Option<Vec<AttestScalar>>)
        requires
            self.wf(),
            stamped.outcome.value <= u32::MAX,
        ensures
            ({
                let id = stamped.outcome.id@;
                let v = stamped.outcome.value as u32;
                &&& r is Some <==> derived_nonce(self@.3, id, 0) is Some
                &&& r matches Some(s) ==> {
                    let nonce = derived_nonce(self@.3, id, 0).unwrap();
                    &&& s@.len() == 1
                    &&& s@[0].0@ == spec_attest_scalar(self@.1.0, nonce.0, v as nat)
                    &&& spec_verify_attest(self@.1.1, nonce.1, v as nat, s@[0].0@)
                }
            }),
    {
        let event_id = &stamped.outcome.id;
        let event_seed = self.event_seed.child(event_id.as_bytes());
        let indexes = stamped.outcome.attestation_indexes();
        let mut scalars: Vec<AttestScalar> = Vec::new();
        let mut i: usize = 0;
        while i < indexes.len()
            invariant
                self.wf(),
                indexes@ == seq![stamped.outcome.value as u32],
                event_seed@ == blake2b_keyed_64(self@.3, encode_utf8(event_id@)),
                i <= indexes.len(),
                scalars@.len() == i,
                i == 1 ==> {
                    let nonce = derived_nonce(self@.3, event_id@, 0).unwrap();
                    &&& derived_nonce(self@.3, event_id@, 0) is Some
                    &&& scalars@[0].0@ == spec_attest_scalar(self@.1.0, nonce.0, (stamped.outcome.value as u32) as nat)
                    &&& spec_verify_attest(self@.1.1, nonce.1, (stamped.outcome.value as u32) as nat, scalars@[0].0@)
                },
            decreases indexes.len() - i,
        {
            let data: [u8; 1] = [i as u8];
            assert(data@ =~= seq![0u8]);
            let nonce_keypair = match keypair_from_secret_bytes(&event_seed.hash_32(&data)) {
                Some(kp) => kp,
                None => {
                    return None;
                },
            };
            let scalar = Secp256k1::reveal_attest_scalar(&self.olivia_v1_keypair, &nonce_keypair, indexes[i]);
            scalars.push(scalar);
            i = i + 1;
        }
        Some(scalars)
    }

    /// The ecdsa-v1 signature on the outcome's attestation string, made with the
    /// announcement key.
    pub fn ecdsa_sign_outcome(&self, outcome: &Outcome) -> (sig: EcdsaSignature)
        requires
            self.wf(),
        ensures
            sig.0@ == ecdsa_sha256_sign(self@.0.0, spec_attestation_string(outcome.id@, outcome.value)),
            ecdsa_sha256_verify(self@.0.1, spec_attestation_string(outcome.id@, outcome.value), sig.0@),
    {
        let message = outcome.attestation_string();
        ecdsa_sign(&self.announcement_keypair, message.as_slice())
    }

    /// What the announcement of an event commits to: the event, its nonces under
    /// olivia-v1 (none for a kind without nonces) and ecdsa-v1.  `None` when the
    /// material of a nonce is zero modulo the group order.
    pub fn oracle_event_for(&self, event: Event) -> (r: Option<OracleEvent>)
        requires
            event.id.wf(),
        ensures
            ({
                let n = spec_kind_nonces(spec_event_kind(event.id@));
                &&& r is Some <==> forall|i: u8| i < n ==> (#[trigger] derived_nonce(self@.3, event.id@, i)) is Some
                &&& r matches Some(e) ==> e.event == event && self.announced_by(e)
            }),
    {
        let kps = match self.nonces_for_event(&event.id) {
            Some(kps) => kps,
            None => {
                return None;
            },
        };
        let mut nonces: Vec<PublicNonce> = Vec::new();
        let mut i: usize = 0;
        while i < kps.len()
            invariant
                i <= kps@.len(),
                nonces@.len() == i,
                forall|j: int| 0 <= j < i ==> #[trigger] nonces@[j].0@ == kps@[j]@.1,
            decreases kps.len() - i,
        {
            nonces.push(kps[i].public_nonce());
            i = i + 1;
        }
        let ghost nv = nonces@.map_values(|p: PublicNonce| p.0@);
        let olivia_v1 = if nonces.len() == 0 {
            None
        } else {
            Some(announce::OliviaV1 { nonces })
        };
        Some(OracleEvent {
            event,
            schemes: AnnouncementSchemes { olivia_v1, ecdsa_v1: Some(announce::EcdsaV1 {}) },
        })
    }

    /// Signs the encoded oracle event with the announcement key.
    pub fn create_announcement(&self, oracle_event: RawOracleEvent) -> (r: RawAnnouncement)
        requires
            self.wf(),
        ensures
            r.oracle_event@ == oracle_event@,
            r.signature.0@ == bip340_sign(self@.0.0, "DLC/announcement"@, encode_utf8(oracle_event@)),
            r.verifies_under(self@.0.1),
    {
        RawAnnouncement::create(oracle_event, &self.announcement_keypair)
    }

    /// The attestation of an outcome of an announced event: olivia-v1 scalars and an
    /// ecdsa-v1 signature, each where the announcement committed to its scheme, stamped
    /// at the whole second of the outcome's time.  `None` when the material of a nonce is
    /// zero modulo the group order.
    pub fn attest_outcome(&self, oracle_event: &OracleEvent, stamped: &StampedOutcome) -> (r: Option<Attestation>)
        requires
            self.wf(),
            stamped.outcome.id.wf_enum(),
            stamped.outcome.value < spec_n_outcomes(spec_event_kind(stamped.outcome.id@)),
        ensures
            ({
                let id = stamped.outcome.id@;
                let v = stamped.outcome.value;
                &&& r is Some <==> (oracle_event.schemes.olivia_v1 is Some ==> derived_nonce(self@.3, id, 0) is Some)
                &&& r matches Some(a) ==> self.attests(*oracle_event, *stamped, a)
            }),
    {
        let olivia_v1 = match &oracle_event.schemes.olivia_v1 {
            Some(_) => match self.olivia_v1_scalars_for_event_outcome(stamped) {
                Some(scalars) => Some(attest::OliviaV1 { scalars }),
                None => {
                    return None;
                },
            },
            None => None,
        };
        let ecdsa_v1 = match &oracle_event.schemes.ecdsa_v1 {
            Some(_) => Some(attest::EcdsaV1 { signature: self.ecdsa_sign_outcome(&stamped.outcome) }),
            None => None,
        };
        let outcome = stamped.outcome.outcome_string();
        Some(Attestation::new(outcome, stamped.time, AttestationSchemes { olivia_v1, ecdsa_v1 }))
    }
}

/// The key chain of a seed is determined by the seed: two derived from the same seed
/// hold the same keys and event seed.
pub proof fn lemma_keychain_determined_by_seed(a: KeyChain, b: KeyChain, seed: Seq<u8>)
    requires
        a.derived_from(seed),
        b.derived_from(seed),
    ensures
        a@ == b@,
{
}

/// An attestation that a key chain makes for an outcome of an event it announced
/// keeps the announcement's promises: it verifies against the announced oracle event
/// under the key chain's public keys.
pub proof fn lemma_attestation_verifies(
    kc: KeyChain,
    oracle_event: OracleEvent,
    stamped: StampedOutcome,
    attestation: Attestation,
    keys: OracleKeys,
)
    requires
        kc.wf(),
        oracle_event.wf(),
        kc.announced_by(oracle_event),
        stamped.outcome.id@ == oracle_event.event.id@,
        stamped.outcome.value < spec_n_outcomes(spec_event_kind(oracle_event.event.id@)),
        kc.attests(oracle_event, stamped, attestation),
        kc.public_keys_are(keys),
    ensures
        spec_verify_attestation(attestation@, oracle_event, keys) == Ok::<(), crate::attestation::AttestationInvalid>(()),
{
    let id = oracle_event.event.id@;
    lemma_fault_free_kind_parses(id);
    lemma_outcome_string_reads_back(id, stamped.outcome.value);
    assert(derived_nonce(kc@.3, id, 0u8) == derived_nonce(kc@.3, id, 0int as u8));
    if let Some(o) = attestation.schemes.olivia_v1 {
        assert(attestation@.1.0 == Some(o.scalars@.map_values(|s: AttestScalar| s.0@)));
    }
}

} // verus!
