//! The oracle: it announces new events and attests to their outcomes, keeping both
//! in its store.
use vstd::prelude::*;
use crate::announcement::{AnnouncedEvent, OracleEvent, RawOracleEvent};
use crate::attestation::{spec_verify_attestation, AttestationInvalid};
use crate::db::in_memory::InMemory;
use crate::event::{spec_event_kind, spec_n_outcomes, Event};
use crate::node::Node;
use crate::keychain::{derived_keypair, derived_nonce, lemma_attestation_verifies, KeyChain};
use crate::oracle_info::OracleKeys;
use crate::outcome::{spec_outcome_string, StampedOutcome};
use crate::seed::Seed;
use crate::text::{push_str, str_eq, string_of};

verus! {

/// Why an event was not added.
#[derive(Debug)]
pub enum EventResult {
    AlreadyExists,
    AlreadyCompleted,
    Changed,
    DbReadErr(String),
    DbWriteErr(String),
}

/// Why an outcome was not attested to.
#[derive(Debug)]
pub enum OutcomeResult {
    AlreadyCompleted,
    OutcomeChanged { existing: String, new: String },
    EventNotExist,
    DbReadErr(String),
    DbWriteErr(String),
    AnnouncementWasBogus,
}

impl EventResult {
    /// The message that the result displays.
    pub fn to_message(&self) -> (s: String)
        ensures
            s@ == match self {
                EventResult::AlreadyExists => "event already exists"@,
                EventResult::AlreadyCompleted => "event already exists and has been attested to"@,
                EventResult::Changed => "event already exists but was updated"@,
                EventResult::DbReadErr(e) => "unable to read from database: "@ + e@,
                EventResult::DbWriteErr(e) => "unable to write to database: "@ + e@,
            },
    {
        match self {
            EventResult::AlreadyExists => string_of("event already exists"),
            EventResult::AlreadyCompleted => string_of(
                "event already exists and has been attested to",
            ),
            EventResult::Changed => string_of("event already exists but was updated"),
            EventResult::DbReadErr(e) => {
                let mut s = string_of("unable to read from database: ");
                push_str(&mut s, e.as_str());
                s
            },
            EventResult::DbWriteErr(e) => {
                let mut s = string_of("unable to write to database: ");
                push_str(&mut s, e.as_str());
                s
            },
        }
    }
}

impl OutcomeResult {
    /// The message that the result displays.
    pub fn to_message(&self) -> (s: String)
        ensures
            s@ == match self {
                OutcomeResult::AlreadyCompleted => "event already attested to"@,
                OutcomeResult::OutcomeChanged { existing, new } =>
                    "event has already been attested to with '"@ + existing@
                    + "' but you are trying to set it to '"@ + new@ + "'"@,
                OutcomeResult::EventNotExist => "the event being attested to does not exist"@,
                OutcomeResult::DbReadErr(e) => "unable to read from database: "@ + e@,
                OutcomeResult::DbWriteErr(e) => "unable to write to database: "@ + e@,
                OutcomeResult::AnnouncementWasBogus =>
                    "the announcement for this event was no longer valid when read from database"@,
            },
    {
        match self {
            OutcomeResult::AlreadyCompleted => string_of("event already attested to"),
            OutcomeResult::OutcomeChanged { existing, new } => {
                let mut s = string_of("event has already been attested to with '");
                push_str(&mut s, existing.as_str());
                push_str(&mut s, "' but you are trying to set it to '");
                push_str(&mut s, new.as_str());
                push_str(&mut s, "'");
                s
            },
            OutcomeResult::EventNotExist => string_of("the event being attested to does not exist"),
            OutcomeResult::DbReadErr(e) => {
                let mut s = string_of("unable to read from database: ");
                push_str(&mut s, e.as_str());
                s
            },
            OutcomeResult::DbWriteErr(e) => {
                let mut s = string_of("unable to write to database: ");
                push_str(&mut s, e.as_str());
                s
            },
            OutcomeResult::AnnouncementWasBogus => string_of(
                "the announcement for this event was no longer valid when read from database",
            ),
        }
    }
}

/// What completing the event of `stamped` does, with `decoded` the decoding of the
/// stored announcement's payload: the errors of an absent or already attested event,
/// of an announcement that does not verify for the event, else the event's
/// attestation by the key chain, stored, which verifies against an announcement the
/// key chain made.
pub open spec fn completes(
    before: Oracle,
    after: Oracle,
    stamped: StampedOutcome,
    decoded: Option<OracleEvent>,
    r: Result<(), OutcomeResult>,
) -> bool {
    let id = stamped.outcome.id@;
    let name = spec_outcome_string(id, stamped.outcome.value);
    let kc = before.keys();
    match before.store().event_for(id) {
        None => r matches Err(OutcomeResult::EventNotExist),
        Some(e) => match e.attestation {
            Some(a) => if a.outcome@ == name {
                r matches Err(OutcomeResult::AlreadyCompleted)
            } else {
                r matches Err(OutcomeResult::OutcomeChanged { existing, new }) && existing@ == a.outcome@ && new@ == name
            },
            None => if e.announcement.verifies_under(kc@.0.1) && (decoded matches Some(d) && d.event.id@ == id) {
                r is Ok && (after.store().event_for(id) matches Some(done) && {
                    &&& done.event == e.event
                    &&& done.announcement == e.announcement
                    &&& done.attestation matches Some(a) && kc.attests(decoded.unwrap(), stamped, a)
                        && ((decoded.unwrap().wf() && kc.announced_by(decoded.unwrap())) ==> forall|keys: OracleKeys|
                        kc.public_keys_are(keys) ==> #[trigger] spec_verify_attestation(a@, decoded.unwrap(), keys) == Ok::<(), AttestationInvalid>(()))
                })
            } else {
                r matches Err(OutcomeResult::AnnouncementWasBogus)
            },
        },
    }
}

/// The oracle: a store and the key chain derived from its seed.
pub struct Oracle {
    db: InMemory,
    keychain: KeyChain,
}

impl Oracle {
    /// The oracle's store.
    pub closed spec fn store(&self) -> InMemory {
        self.db
    }

    /// The oracle's key chain.
    pub closed spec fn keys(&self) -> KeyChain {
        self.keychain
    }

    /// The store is well formed and the key pairs are `secp256kfun`'s.
    pub open spec fn wf(&self) -> bool {
        self.store().wf() && self.keys().wf()
    }

    /// An oracle over `db` with the keys of `seed`.  The store's public keys must be the
    /// seed's; a store without public keys gets them.
    pub fn new(seed: Seed, db: InMemory) -> (r: Result<Oracle, String>)
        requires
            db.wf(),
        ensures
            match r {
                Ok(o) => {
                    &&& o.wf()
                    &&& o.keys().derived_from(seed@)
                    &&& o.store().events() == db.events()
                    &&& o.store().node_kinds() == db.node_kinds()
                    &&& o.store().public_keys() matches Some(k) && o.keys().public_keys_are(k)
                    &&& db.public_keys() matches Some(k) ==> o.store().public_keys() == db.public_keys()
                },
                Err(m) => {
                    ||| (derived_keypair(seed@, "announcement-key"@) is None || derived_keypair(seed@, "olivia-v1-key"@) is None
                        || derived_keypair(seed@, "ecdsa-v1-key"@) is None) && m@ == "key material derived from the seed is zero"@
                    ||| db.public_keys() matches Some(k) && m@ == "public key derived from seed does not match database"@
                        && !(exists|kc: KeyChain| kc.derived_from(seed@) && kc.public_keys_are(k))
                },
            },
    {
        let keychain = match KeyChain::new(seed) {
            Some(kc) => kc,
            None => {
                return Err(string_of("key material derived from the seed is zero"));
            },
        };
        let public_keys = keychain.oracle_public_keys();
        let mut db = db;
        match db.get_public_keys() {
            Some(db_pubkeys) => {
                if !public_keys.eq_keys(&db_pubkeys) {
                    proof {
                        assert forall|kc: KeyChain| kc.derived_from(seed@) implies !kc.public_keys_are(db_pubkeys) by {
                            assert(kc@ == keychain@);
                        }
                    }
                    return Err(string_of("public key derived from seed does not match database"));
                }
            },
            None => {
                db.set_public_keys(public_keys);
            },
        }
        Ok(Oracle { db, keychain })
    }

    /// The oracle's public keys.
    pub fn public_keys(&self) -> (k: OracleKeys)
        requires
            self.wf(),
        ensures
            self.keys().public_keys_are(k),
    {
        self.keychain.oracle_public_keys()
    }

    /// The oracle's store.
    pub fn db(&self) -> (db: &InMemory)
        ensures
            *db == self.store(),
    {
        &self.db
    }

    /// The oracle's key chain.
    pub fn keychain(&self) -> (kc: &KeyChain)
        ensures
            *kc == self.keys(),
    {
        &self.keychain
    }

    /// Announces and stores a new event.  `oracle_event` is the oracle event that the
    /// key chain makes for it (`KeyChain::oracle_event_for`) and `encoded` its encoding;
    /// the announcement signs the encoding, so that it checks out against the event's
    /// id with `RawAnnouncement::verify_against_id`.
    pub fn add_event(&mut self, new_event: Event, encoded: RawOracleEvent, oracle_event: OracleEvent) -> (r: Result<(), EventResult>)
        requires
            old(self).wf(),
            new_event.id.wf(),
            oracle_event.event == new_event,
            old(self).keys().announced_by(oracle_event),
        ensures
            final(self).wf(),
            final(self).keys() == old(self).keys(),
            final(self).store().public_keys() == old(self).store().public_keys(),
            final(self).store().node_kinds() == old(self).store().node_kinds(),
            match old(self).store().event_for(new_event.id@) {
                Some(e) => final(self).store().events() == old(self).store().events() && if e.attestation is Some {
                    r matches Err(EventResult::AlreadyCompleted)
                } else {
                    r matches Err(EventResult::AlreadyExists)
                },
                None => r is Ok && final(self).store().events().len() == old(self).store().events().len() + 1
                    && final(self).store().events().drop_last() == old(self).store().events()
                    && (final(self).store().event_for(new_event.id@) matches Some(stored) && {
                    &&& stored.event == new_event
                    &&& stored.attestation is None
                    &&& stored.announcement.oracle_event@ == encoded@
                    &&& stored.announcement.verifies_under(old(self).keys()@.0.1)
                    &&& oracle_event.event.id@ == new_event.id@
                }),
            },
    {
        match self.db.get_announced_event(&new_event.id) {
            Some(existing) => match existing.attestation {
                Some(_) => Err(EventResult::AlreadyCompleted),
                None => Err(EventResult::AlreadyExists),
            },
            None => {
                let announcement = self.keychain.create_announcement(encoded);
                let ghost ann = announcement;
                let r = self.db.insert_event(AnnouncedEvent { event: new_event, announcement, attestation: None });
                proof {
                    assert(self.db.events().drop_last() =~= old(self).db.events());
                }
                match r {
                    Ok(()) => Ok(()),
                    Err(e) => Err(EventResult::DbWriteErr(e)),
                }
            },
        }
    }

    /// Sets the kind of a path in the store.
    pub fn set_node(&mut self, node: Node)
        requires
            old(self).wf(),
        ensures
            final(self).wf(),
            final(self).keys() == old(self).keys(),
            final(self).store().events() == old(self).store().events(),
            final(self).store().public_keys() == old(self).store().public_keys(),
            final(self).store().kind_for(node.path@) == Some(node.kind),
            forall|p: Seq<char>| p != node.path@ ==> #[trigger] final(self).store().kind_for(p) == old(self).store().kind_for(p),
    {
        self.db.set_node(node);
    }

    /// `complete_event` where the key chain's first nonce for the outcome's event can be
    /// derived; `None`, with nothing changed, where its material is zero modulo the
    /// group order.
    pub fn try_complete_event(&mut self, stamped: StampedOutcome, decoded: Option<OracleEvent>) -> (r: Option<Result<(), OutcomeResult>>)
        requires
            old(self).wf(),
            stamped.outcome.id.wf_enum(),
            stamped.outcome.value < spec_n_outcomes(spec_event_kind(stamped.outcome.id@)),
        ensures
            final(self).wf(),
            r is None <==> derived_nonce(old(self).keys()@.3, stamped.outcome.id@, 0) is None,
            r is None ==> *final(self) == *old(self),
            r matches Some(res) ==> completes(*old(self), *final(self), stamped, decoded, res),
    {
        if self.keychain.nonces_for_event(&stamped.outcome.id).is_none() {
            return None;
        }
        assert(derived_nonce(self.keys()@.3, stamped.outcome.id@, 0u8) is Some);
        Some(self.complete_event(stamped, decoded))
    }

    /// Attests to the outcome of a stored, unattested event.  `decoded` is the oracle
    /// event that the stored announcement's payload decodes to (`None` when it does
    /// not); the announcement must verify under the oracle's key and be for the
    /// outcome's event.
    pub fn complete_event(&mut self, stamped: StampedOutcome, decoded: Option<OracleEvent>) -> (r: Result<(), OutcomeResult>)
        requires
            old(self).wf(),
            stamped.outcome.id.wf_enum(),
            stamped.outcome.value < spec_n_outcomes(spec_event_kind(stamped.outcome.id@)),
            derived_nonce(old(self).keys()@.3, stamped.outcome.id@, 0) is Some,
        ensures
            final(self).wf(),
            final(self).keys() == old(self).keys(),
            final(self).store().public_keys() == old(self).store().public_keys(),
            final(self).store().node_kinds() == old(self).store().node_kinds(),
            completes(*old(self), *final(self), stamped, decoded, r),
            r is Err ==> final(self).store().events() == old(self).store().events(),
            forall|other: Seq<char>|
                other != stamped.outcome.id@ ==> #[trigger] final(self).store().event_for(other) == old(self).store().event_for(other),
    {
        let existing = self.db.get_announced_event(&stamped.outcome.id);
        let outcome_val_str = stamped.outcome.outcome_string();
        match existing {
            None => Err(OutcomeResult::EventNotExist),
            Some(AnnouncedEvent { event, announcement, attestation: Some(attestation) }) => {
                if str_eq(attestation.outcome.as_str(), outcome_val_str.as_str()) {
                    Err(OutcomeResult::AlreadyCompleted)
                } else {
                    Err(OutcomeResult::OutcomeChanged { existing: attestation.outcome, new: outcome_val_str })
                }
            },
            Some(AnnouncedEvent { event, announcement, attestation: None }) => {
                let key = self.keychain.oracle_public_keys().announcement;
                match announcement.verify_against_id(&stamped.outcome.id, &key, decoded) {
                    Some(oracle_event) => {
                        let attestation = match self.keychain.attest_outcome(&oracle_event, &stamped) {
                            Some(a) => a,
                            None => {
                                assert(false);
                                return Err(OutcomeResult::AnnouncementWasBogus);
                            },
                        };
                        let ghost att = attestation;
                        let r = self.db.complete_event(&event.id, attestation);
                        proof {
                            assert forall|keys: OracleKeys| (oracle_event.wf() && self.keychain.announced_by(oracle_event)
                                && self.keychain.public_keys_are(keys)) implies #[trigger] spec_verify_attestation(att@, oracle_event, keys)
                                == Ok::<(), AttestationInvalid>(()) by {
                                lemma_attestation_verifies(self.keychain, oracle_event, stamped, att, keys);
                            }
                        }
                        match r {
                            Ok(()) => Ok(()),
                            Err(e) => Err(OutcomeResult::DbWriteErr(e)),
                        }
                    },
                    None => Err(OutcomeResult::AnnouncementWasBogus),
                }
            },
        }
    }
}

} // verus!
