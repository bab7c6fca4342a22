//! Announcements: the signed commitment the oracle publishes for an event before
//! its outcome is known.
//!
//! The signed payload is the JSON encoding of an [`OracleEvent`].  Encoding and
//! decoding that JSON is serde's work and happens outside this crate; here the
//! payload is text whose UTF-8 bytes are signed and checked.
pub mod announce;

use vstd::prelude::*;
use vstd::utf8::{encode_utf8, valid_utf8};
use crate::curve::{
    announcement_tag, bip340_sign, bip340_sign_tagged, bip340_verify, bip340_verify_tagged, opt_point, spec_anticipate,
    AnticipatedAttestation, KeyPair, PublicKey, Secp256k1, Signature,
};
use crate::descriptor::Descriptor;
use crate::event::{spec_event_kind, spec_n_outcomes, spec_outcome_names, Event, EventId, EventKind};
use crate::attestation::{Attestation, AttestationView};
use crate::text::{str_eq, string_from_utf8, string_of};
use crate::time::Timestamp;

verus! {

/// The schemes an announcement commits to.
#[derive(Debug, Clone)]
pub struct AnnouncementSchemes {
    pub olivia_v1: Option<announce::OliviaV1>,
    pub ecdsa_v1: Option<announce::EcdsaV1>,
}

/// The nonces of an olivia-v1 commitment (`None` without one) and whether ecdsa-v1 is committed to.
pub type SchemesView = (Option<Seq<Seq<u8>>>, bool);

impl View for AnnouncementSchemes {
    type V = SchemesView;

    open spec fn view(&self) -> SchemesView {
        (
            match self.olivia_v1 {
                Some(o) => Some(o.nonces@.map_values(|n: crate::curve::PublicNonce| n.0@)),
                None => None,
            },
            self.ecdsa_v1 is Some,
        )
    }
}

impl Default for AnnouncementSchemes {
    fn default() -> (s: Self)
        ensures
            s.olivia_v1 is None,
            s.ecdsa_v1 is None,
    {
        AnnouncementSchemes { olivia_v1: None, ecdsa_v1: None }
    }
}

impl AnnouncementSchemes {
    /// A copy of the schemes.
    pub fn duplicate(&self) -> (s: Self)
        ensures
            s@ == self@,
    {
        let olivia_v1 = match &self.olivia_v1 {
            Some(o) => Some(announce::OliviaV1 { nonces: crate::curve::copy_nonces(&o.nonces) }),
            None => None,
        };
        let ecdsa_v1 = match &self.ecdsa_v1 {
            Some(_) => Some(announce::EcdsaV1 {}),
            None => None,
        };
        AnnouncementSchemes { olivia_v1, ecdsa_v1 }
    }
}

/// An oracle event as it is encoded: with the descriptor of its outcomes written out.
#[derive(Debug, Clone)]
pub struct OracleEventWithDescriptor {
    pub id: EventId,
    pub expected_outcome_time: Option<Timestamp>,
    pub descriptor: Descriptor,
    pub schemes: AnnouncementSchemes,
}

/// What an announcement is about: the event and the schemes its outcome will be attested with.
#[derive(Debug, Clone)]
pub struct OracleEvent {
    pub event: Event,
    pub schemes: AnnouncementSchemes,
}

/// The number of nonces an event of the kind needs.
pub open spec fn kind_nonces(k: EventKind) -> nat {
    crate::event::spec_kind_nonces(k) as nat
}

/// An olivia-v1 commitment, if any, has a nonce for each nonce the kind needs.
pub open spec fn enough_nonces(id: Seq<char>, schemes: &AnnouncementSchemes) -> bool {
    schemes.olivia_v1 matches Some(o) ==> o.nonces@.len() >= kind_nonces(spec_event_kind(id))
}

impl OracleEvent {
    /// An oracle event as `try_from` accepts them.
    pub open spec fn wf(&self) -> bool {
        &&& self.event.id.wf_enum()
        &&& enough_nonces(self.event.id@, &self.schemes)
    }

    /// Checks an encoded oracle event: enough nonces for its kind, and the descriptor
    /// that its id implies.
    pub fn try_from(oracle_event: OracleEventWithDescriptor) -> (r: Result<OracleEvent, String>)
        requires
            oracle_event.id.wf_enum(),
        ensures
            match r {
                Ok(e) => {
                    &&& enough_nonces(oracle_event.id@, &oracle_event.schemes)
                    &&& oracle_event.descriptor.outcomes_view() == Some(spec_outcome_names(oracle_event.id@))
                    &&& e.event.id == oracle_event.id
                    &&& e.event.expected_outcome_time == oracle_event.expected_outcome_time
                    &&& e.schemes@ == oracle_event.schemes@
                    &&& e.wf()
                },
                Err(m) => if !enough_nonces(oracle_event.id@, &oracle_event.schemes) {
                    m@ == "oracle event doesn't have enough nonces for descriptor"@
                } else {
                    &&& oracle_event.descriptor.outcomes_view() != Some(spec_outcome_names(oracle_event.id@))
                    &&& m@ == "descriptor doesn't match event id"@
                },
            },
    {
        if let Some(olivia_v1) = &oracle_event.schemes.olivia_v1 {
            if olivia_v1.nonces.len() < oracle_event.id.n_nonces() as usize {
                return Err(string_of("oracle event doesn't have enough nonces for descriptor"));
            }
        }
        let expected = oracle_event.id.descriptor();
        if oracle_event.descriptor.same_enum_outcomes(&expected) {
            Ok(OracleEvent {
                event: Event {
                    id: oracle_event.id,
                    expected_outcome_time: oracle_event.expected_outcome_time,
                },
                schemes: oracle_event.schemes,
            })
        } else {
            Err(string_of("descriptor doesn't match event id"))
        }
    }
}

impl OracleEvent {
    /// The anticipated attestation points of the event's outcomes for the olivia-v1 nonce
    /// at `nonce_index`, under the key `public_key`; `None` without an olivia-v1
    /// commitment (and where [`Secp256k1::anticipate_attestations`] gives `None`).
    pub fn anticipate_attestations_olivia_v1(&self, public_key: &PublicKey, nonce_index: usize) -> (r: Option<Vec<AnticipatedAttestation>>)
        requires
            self.event.id.wf_enum(),
            self.schemes.olivia_v1 matches Some(o) ==> nonce_index < o.nonces@.len(),
        ensures
            match self.schemes.olivia_v1 {
                None => r is None,
                Some(o) => match spec_anticipate(
                    public_key.0@,
                    o.nonces@[nonce_index as int].0@,
                    spec_n_outcomes(spec_event_kind(self.event.id@)),
                ) {
                    Some(points) => r matches Some(v) && v@.map_values(|a: AnticipatedAttestation| opt_point(a.0)) == points,
                    None => r is None,
                },
            },
    {
        match &self.schemes.olivia_v1 {
            Some(olivia_v1) => Secp256k1::anticipate_attestations(
                public_key,
                &olivia_v1.nonces[nonce_index],
                self.event.id.n_outcomes_for_nonce(nonce_index),
            ),
            None => None,
        }
    }
}

impl OracleEventWithDescriptor {
    /// The encoded form of an oracle event: its id's descriptor written out.
    pub fn from_oracle_event(oracle_event: OracleEvent) -> (r: Self)
        requires
            oracle_event.event.id.wf_enum(),
        ensures
            r.id == oracle_event.event.id,
            r.expected_outcome_time == oracle_event.event.expected_outcome_time,
            r.descriptor.outcomes_view() == Some(spec_outcome_names(oracle_event.event.id@)),
            r.schemes@ == oracle_event.schemes@,
    {
        let descriptor = oracle_event.event.id.descriptor();
        OracleEventWithDescriptor {
            id: oracle_event.event.id,
            expected_outcome_time: oracle_event.event.expected_outcome_time,
            descriptor,
            schemes: oracle_event.schemes,
        }
    }
}

/// The signed payload of an announcement: the JSON text of an oracle event.
#[derive(Debug, Clone)]
pub struct RawOracleEvent {
    json: String,
}

impl View for RawOracleEvent {
    type V = Seq<char>;

    closed spec fn view(&self) -> Seq<char> {
        self.json@
    }
}

impl RawOracleEvent {
    /// The payload whose bytes are `bytes`.
    pub fn from_json_bytes(bytes: Vec<u8>) -> (r: Self)
        requires
            valid_utf8(bytes@),
        ensures
            encode_utf8(r@) == bytes@,
    {
        match string_from_utf8(bytes) {
            Some(json) => RawOracleEvent { json },
            None => {
                assert(false);
                RawOracleEvent { json: String::new() }
            },
        }
    }

    /// The bytes that are signed.
    pub fn as_bytes(&self) -> (b: &[u8])
        ensures
            b@ == encode_utf8(self@),
    {
        self.json.as_str().as_bytes()
    }

    /// The payload's text.
    pub fn as_str(&self) -> (s: &str)
        ensures
            s@ == self@,
    {
        self.json.as_str()
    }

    /// A copy of the payload.
    pub fn duplicate(&self) -> (r: Self)
        ensures
            r@ == self@,
    {
        RawOracleEvent { json: self.json.clone() }
    }

    /// Whether `announcement_signature` signs the payload under `oracle_public_key`.
    pub fn verify(&self, oracle_public_key: &PublicKey, announcement_signature: &Signature) -> (b: bool)
        ensures
            b == bip340_verify(oracle_public_key.0@, "DLC/announcement"@, encode_utf8(self@), announcement_signature.0@),
    {
        bip340_verify_tagged(oracle_public_key, announcement_tag(), self.as_bytes(), announcement_signature)
    }

    /// Signs the payload.
    pub fn sign(&self, keypair: &KeyPair) -> (sig: Signature)
        requires
            keypair.wf(),
        ensures
            sig.0@ == bip340_sign(keypair@.0, "DLC/announcement"@, encode_utf8(self@)),
            bip340_verify(keypair@.1, "DLC/announcement"@, encode_utf8(self@), sig.0@),
    {
        bip340_sign_tagged(keypair, announcement_tag(), self.as_bytes())
    }
}

/// A signed oracle event.
#[derive(Debug, Clone)]
pub struct RawAnnouncement {
    pub oracle_event: RawOracleEvent,
    pub signature: Signature,
}

impl View for RawAnnouncement {
    type V = (Seq<char>, Seq<u8>);

    open spec fn view(&self) -> (Seq<char>, Seq<u8>) {
        (self.oracle_event@, self.signature.0@)
    }
}

impl RawAnnouncement {
    /// The signature verifies under `key`.
    pub open spec fn verifies_under(&self, key: Seq<u8>) -> bool {
        bip340_verify(key, "DLC/announcement"@, encode_utf8(self.oracle_event@), self.signature.0@)
    }

    /// Signs an encoded oracle event with the announcement key pair.
    pub fn create(oracle_event: RawOracleEvent, keypair: &KeyPair) -> (r: Self)
        requires
            keypair.wf(),
        ensures
            r.oracle_event@ == oracle_event@,
            r.signature.0@ == bip340_sign(keypair@.0, "DLC/announcement"@, encode_utf8(oracle_event@)),
            r.verifies_under(keypair@.1),
    {
        let signature = oracle_event.sign(keypair);
        RawAnnouncement { signature, oracle_event }
    }

    /// Checks the announcement for `event_id`: its signature under the announcement key,
    /// then the id of `decoded`, the oracle event its payload decodes to (`None` when it
    /// does not decode).
    pub fn verify_against_id(
        &self,
        event_id: &EventId,
        oracle_announcement_key: &PublicKey,
        decoded: Option<OracleEvent>,
    ) -> (r: Option<OracleEvent>)
        ensures
            r is Some <==> (self.verifies_under(oracle_announcement_key.0@) && (decoded matches Some(
                d,
            ) && d.event.id@ == event_id@)),
            r matches Some(e) ==> decoded == Some(e),
    {
        if !self.oracle_event.verify(oracle_announcement_key, &self.signature) {
            return None;
        }
        let oracle_event = match decoded {
            Some(e) => e,
            None => {
                return None;
            },
        };
        if !str_eq(oracle_event.event.id.as_str(), event_id.as_str()) {
            return None;
        }
        Some(oracle_event)
    }

    /// A copy of the announcement.
    pub fn duplicate(&self) -> (r: Self)
        ensures
            r@ == self@,
    {
        RawAnnouncement { oracle_event: self.oracle_event.duplicate(), signature: self.signature }
    }
}

/// An event as the oracle stores it: the event, its announcement and, once there is
/// one, its attestation.
#[derive(Debug, Clone)]
pub struct AnnouncedEvent {
    pub event: Event,
    pub announcement: RawAnnouncement,
    pub attestation: Option<Attestation>,
}

/// What an announced event holds, by value.
pub type AnnouncedEventView = (Event, (Seq<char>, Seq<u8>), Option<AttestationView>);

impl View for AnnouncedEvent {
    type V = AnnouncedEventView;

    open spec fn view(&self) -> AnnouncedEventView {
        (
            self.event,
            self.announcement@,
            match self.attestation {
                Some(a) => Some(a@),
                None => None,
            },
        )
    }
}

impl AnnouncedEvent {
    /// A copy of the announced event.
    pub fn duplicate(&self) -> (r: Self)
        ensures
            r@ == self@,
    {
        let attestation = match &self.attestation {
            Some(a) => Some(a.duplicate()),
            None => None,
        };
        AnnouncedEvent {
            event: self.event.duplicate(),
            announcement: self.announcement.duplicate(),
            attestation,
        }
    }
}

} // verus!
