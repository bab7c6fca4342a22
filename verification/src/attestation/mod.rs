//! Attestations: what the oracle publishes once an event's outcome is known, and
//! the check that an attestation keeps the promises of its announcement.
pub mod attest;

use vstd::prelude::*;
use crate::announcement::OracleEvent;
use crate::curve::{ecdsa_sha256_verify, ecdsa_verify, spec_verify_attest, AttestScalar, Secp256k1};
use crate::oracle_info::OracleKeys;
use crate::outcome::{lemma_parsed_outcome_names_back, spec_attestation_string, spec_parse_outcome, Outcome};
use crate::event::spec_event_kind;
use crate::text::string_of;
use crate::time::Timestamp;

verus! {

/// The schemes an attestation reveals.
#[derive(Debug, Clone)]
pub struct AttestationSchemes {
    pub olivia_v1: Option<attest::OliviaV1>,
    pub ecdsa_v1: Option<attest::EcdsaV1>,
}

/// The olivia-v1 scalars (`None` without them) and the ecdsa-v1 signature (`None` without one).
pub type AttestationSchemesView = (Option<Seq<Seq<u8>>>, Option<Seq<u8>>);

impl View for AttestationSchemes {
    type V = AttestationSchemesView;

    open spec fn view(&self) -> AttestationSchemesView {
        (
            match self.olivia_v1 {
                Some(o) => Some(o.scalars@.map_values(|s: AttestScalar| s.0@)),
                None => None,
            },
            match self.ecdsa_v1 {
                Some(e) => Some(e.signature.0@),
                None => None,
            },
        )
    }
}

impl AttestationSchemes {
    /// A copy of the schemes.
    pub fn duplicate(&self) -> (s: Self)
        ensures
            s@ == self@,
    {
        let olivia_v1 = match &self.olivia_v1 {
            Some(o) => Some(attest::OliviaV1 { scalars: crate::curve::copy_scalars(&o.scalars) }),
            None => None,
        };
        let ecdsa_v1 = match &self.ecdsa_v1 {
            Some(e) => Some(attest::EcdsaV1 { signature: e.signature }),
            None => None,
        };
        AttestationSchemes { olivia_v1, ecdsa_v1 }
    }
}

/// The outcome's name, the schemes, and the time of the attestation.
#[derive(Debug, Clone)]
pub struct Attestation {
    pub outcome: String,
    pub schemes: AttestationSchemes,
    pub time: Timestamp,
}

/// What an attestation holds, by value.
pub type AttestationView = (Seq<char>, AttestationSchemesView, Timestamp);

impl View for Attestation {
    type V = AttestationView;

    open spec fn view(&self) -> AttestationView {
        (self.outcome@, self.schemes@, self.time)
    }
}

/// Why an attestation does not keep its announcement's promises.
#[derive(Debug, Clone, Copy, PartialEq, Eq, Structural)]
pub enum AttestationInvalid {
    OliviaV1,
    EcdsaV1,
    Outcome,
    Missing,
}

impl AttestationInvalid {
    /// The message that the error displays.
    pub fn to_message(&self) -> (s: String)
        ensures
            s@ == match self {
                AttestationInvalid::OliviaV1 => "olivia-v1 attestation was invalid"@,
                AttestationInvalid::EcdsaV1 => "ecdsa-v1 attestation was invalid"@,
                AttestationInvalid::Outcome => "outcome is invalid"@,
                AttestationInvalid::Missing => "outcome is missing"@,
            },
    {
        match self {
            AttestationInvalid::OliviaV1 => string_of("olivia-v1 attestation was invalid"),
            AttestationInvalid::EcdsaV1 => string_of("ecdsa-v1 attestation was invalid"),
            AttestationInvalid::Outcome => string_of("outcome is invalid"),
            AttestationInvalid::Missing => string_of("outcome is missing"),
        }
    }
}

/// The olivia-v1 part of the check of an attestation of the value `v`.
pub open spec fn spec_check_olivia_v1(
    announced: Option<Seq<Seq<u8>>>,
    revealed: Option<Seq<Seq<u8>>>,
    key: Option<crate::curve::PublicKey>,
    v: u64,
) -> Result<(), AttestationInvalid> {
    match (announced, revealed) {
        (Some(nonces), Some(scalars)) => if nonces.len() != scalars.len() {
            Err(AttestationInvalid::OliviaV1)
        } else {
            match key {
                Some(k) => if spec_verify_attest(k.0@, nonces[0], (v as u32) as nat, scalars[0]) {
                    Ok(())
                } else {
                    Err(AttestationInvalid::OliviaV1)
                },
                None => Err(AttestationInvalid::OliviaV1),
            }
        },
        (Some(_), None) => Err(AttestationInvalid::Missing),
        _ => Ok(()),
    }
}

/// The ecdsa-v1 part of the check of an attestation signing `message`.
pub open spec fn spec_check_ecdsa_v1(
    announced: bool,
    revealed: Option<Seq<u8>>,
    key: Seq<u8>,
    message: Seq<u8>,
) -> Result<(), AttestationInvalid> {
    match (announced, revealed) {
        (true, Some(sig)) => if ecdsa_sha256_verify(key, message, sig) {
            Ok(())
        } else {
            Err(AttestationInvalid::EcdsaV1)
        },
        (true, None) => Err(AttestationInvalid::Missing),
        _ => Ok(()),
    }
}

/// The verdict on an attestation of an oracle event under the oracle's keys: the
/// outcome must name a value of the event, then each scheme the announcement
/// committed to must be revealed and verify (olivia-v1 under the olivia-v1 key,
/// ecdsa-v1 under the announcement key).
pub open spec fn spec_verify_attestation(
    att: AttestationView,
    oracle_event: OracleEvent,
    keys: OracleKeys,
) -> Result<(), AttestationInvalid> {
    let id = oracle_event.event.id@;
    match spec_parse_outcome(id, att.0) {
        Err(_) => Err(AttestationInvalid::Outcome),
        Ok(v) => match spec_check_olivia_v1(oracle_event.schemes@.0, att.1.0, keys.olivia_v1, v) {
            Err(e) => Err(e),
            Ok(()) => spec_check_ecdsa_v1(
                oracle_event.schemes@.1,
                att.1.1,
                keys.announcement.0@,
                spec_attestation_string(id, v),
            ),
        },
    }
}

impl Attestation {
    /// An attestation stamped at the whole second of `time`.
    pub fn new(outcome: String, time: Timestamp, schemes: AttestationSchemes) -> (a: Self)
        ensures
            a.outcome == outcome,
            a.schemes == schemes,
            a.time == (Timestamp { secs: time.secs, nanos: 0 }),
    {
        Attestation { outcome, schemes, time: Timestamp { secs: time.secs, nanos: 0 } }
    }

    /// A copy of the attestation.
    pub fn duplicate(&self) -> (a: Self)
        ensures
            a@ == self@,
    {
        Attestation { outcome: self.outcome.clone(), schemes: self.schemes.duplicate(), time: self.time }
    }

    /// Checks the attestation against the announced oracle event and the oracle's keys.
    #[verifier::loop_isolation(false)]
    pub fn verify_attestation(&self, oracle_event: &OracleEvent, oracle_keys: &OracleKeys) -> (r:
        Result<(), AttestationInvalid>)
        requires
            oracle_event.wf(),
        ensures
            r == spec_verify_attestation(self@, *oracle_event, *oracle_keys),
    {
        let outcome = match Outcome::try_from_id_and_outcome(
            oracle_event.event.id.duplicate(),
            self.outcome.as_str(),
        ) {
            Ok(outcome) => outcome,
            Err(_) => {
                return Err(AttestationInvalid::Outcome);
            },
        };
        let ghost id = oracle_event.event.id@;
        proof {
            lemma_parsed_outcome_names_back(id, self.outcome@);
        }
        match (&oracle_event.schemes.olivia_v1, &self.schemes.olivia_v1) {
            (Some(ann_olivia_v1), Some(att_olivia_v1)) => {
                if ann_olivia_v1.nonces.len() != att_olivia_v1.scalars.len() {
                    return Err(AttestationInvalid::OliviaV1);
                }
                let key = match &oracle_keys.olivia_v1 {
                    Some(k) => k,
                    None => {
                        return Err(AttestationInvalid::OliviaV1);
                    },
                };
                let indexes = outcome.attestation_indexes();
                let mut frag_index: usize = 0;
                while frag_index < indexes.len()
                    invariant
                        indexes@ == seq![outcome.value as u32],
                        frag_index <= indexes.len(),
                        ann_olivia_v1.nonces.len() == att_olivia_v1.scalars.len(),
                        ann_olivia_v1.nonces.len() >= 1,
                        frag_index == 1 ==> spec_verify_attest(
                            key.0@,
                            ann_olivia_v1.nonces@[0].0@,
                            (outcome.value as u32) as nat,
                            att_olivia_v1.scalars@[0].0@,
                        ),
                    decreases indexes.len() - frag_index,
                {
                    if !Secp256k1::verify_attest_scalar(
                        key,
                        &ann_olivia_v1.nonces[frag_index],
                        indexes[frag_index],
                        &att_olivia_v1.scalars[frag_index],
                    ) {
                        return Err(AttestationInvalid::OliviaV1);
                    }
                    frag_index = frag_index + 1;
                }
            },
            (Some(_), None) => {
                return Err(AttestationInvalid::Missing);
            },
            _ => {},
        }
        match (&oracle_event.schemes.ecdsa_v1, &self.schemes.ecdsa_v1) {
            (Some(_), Some(attest::EcdsaV1 { signature })) => {
                let message = outcome.attestation_string();
                if !ecdsa_verify(&oracle_keys.announcement, message.as_slice(), signature) {
                    return Err(AttestationInvalid::EcdsaV1);
                }
            },
            (Some(_), None) => {
                return Err(AttestationInvalid::Missing);
            },
            _ => {},
        }
        Ok(())
    }
}

} // verus!
