use olivia::announcement::{AnnouncedEvent, OracleEvent, RawOracleEvent};
use olivia::attestation::AttestationInvalid;
use olivia::db::in_memory::InMemory;
use olivia::db::{EventQuery, Order};
use olivia::event::{Event, EventId, EventKind};
use olivia::keychain::{DeriveKeyPair, KeyChain};
use olivia::node::{Child, ChildDesc, Node, NodeKind, RangeKind};
use olivia::oracle::{EventResult, Oracle, OutcomeResult};
use olivia::oracle_info::OracleKeys;
use olivia::outcome::{StampedOutcome, WireEventOutcome};
use olivia::path::{Path, PathRef};
use olivia::rest_api::{get_event, get_path, get_root, percent_decoded_tail, ApiReply, ErrorMessage};
use olivia::curve::Secp256k1;
use olivia::seed::Seed;
use olivia::time::Timestamp;

fn encoded(id: &str) -> RawOracleEvent {
    RawOracleEvent::from_json_bytes(format!("{{\"id\":\"{}\"}}", id).into_bytes())
}

fn stamped(id: &str, outcome: &str) -> StampedOutcome {
    StampedOutcome::try_from_wire_at(
        WireEventOutcome { event_id: EventId::from_str(id).unwrap(), outcome: outcome.into(), time: None },
        Timestamp { secs: 1601452800, nanos: 123 },
    )
    .unwrap()
}

fn announced(oracle: &mut Oracle, id: &str) -> OracleEvent {
    let event = Event::from_id(EventId::from_str(id).unwrap());
    let oracle_event = oracle.keychain().oracle_event_for(event.clone()).unwrap();
    assert!(oracle.add_event(event, encoded(id), oracle_event.clone()).is_ok());
    oracle_event
}

#[test]
fn test_against_oracle() {
    let db = InMemory::new();
    let mut oracle =
        Oracle::new(Seed::new([42u8; 64]), db).expect("should be able to create oracle");
    let public_keys = oracle
        .db()
        .get_public_keys()
        .expect("creating oracle should have set public keys");
    let event_id = EventId::from_str("/foo/bar/baz.occur").unwrap();
    let oracle_event = announced(&mut oracle, "/foo/bar/baz.occur");

    let event = oracle.db().get_announced_event(&event_id).expect("event should be there");
    let verified = event
        .announcement
        .verify_against_id(&event_id, &public_keys.announcement, Some(oracle_event.clone()))
        .expect("announcement signature should be valid");

    let outcome = stamped("/foo/bar/baz.occur", "true");
    assert!(oracle.complete_event(outcome, Some(oracle_event.clone())).is_ok());

    let attested_event =
        oracle.db().get_announced_event(&event_id).expect("event should still be there");
    let attestation = attested_event.attestation.expect("should be attested to");
    assert_eq!(attestation.outcome, "true");
    assert_eq!(attestation.time, Timestamp { secs: 1601452800, nanos: 0 });
    assert_eq!(attestation.verify_attestation(&verified, &public_keys), Ok(()));
}

#[test]
fn test_oracle_keys() {
    let keys = OracleKeys::test_oracle_keys();
    assert_eq!(keys.announcement.0, [13u8; 32]);
    assert_eq!(keys.ecdsa_v1.unwrap().0, [14u8; 32]);
    assert_eq!(keys.olivia_v1.unwrap().0, [16u8; 32]);
}

#[test]
fn oracle_refuses_events_twice() {
    let mut oracle = Oracle::new(Seed::new([7u8; 64]), InMemory::new()).unwrap();
    let oracle_event = announced(&mut oracle, "/a/b.occur");
    let again = oracle.add_event(
        Event::from_id(EventId::from_str("/a/b.occur").unwrap()),
        encoded("/a/b.occur"),
        oracle_event.clone(),
    );
    assert!(matches!(again, Err(EventResult::AlreadyExists)));
    assert!(oracle.complete_event(stamped("/a/b.occur", "true"), Some(oracle_event.clone())).is_ok());
    let after = oracle.add_event(
        Event::from_id(EventId::from_str("/a/b.occur").unwrap()),
        encoded("/a/b.occur"),
        oracle_event.clone(),
    );
    assert!(matches!(after, Err(EventResult::AlreadyCompleted)));
    assert_eq!(EventResult::AlreadyCompleted.to_message(), "event already exists and has been attested to");
}

#[test]
fn oracle_outcome_errors() {
    let mut oracle = Oracle::new(Seed::new([7u8; 64]), InMemory::new()).unwrap();
    let missing = oracle.complete_event(stamped("/nothing/here.occur", "true"), None);
    assert!(matches!(missing, Err(OutcomeResult::EventNotExist)));

    let oracle_event = announced(&mut oracle, "/m/FOO_BAR.vs");
    let bogus = oracle.complete_event(stamped("/m/FOO_BAR.vs", "FOO_win"), None);
    assert!(matches!(bogus, Err(OutcomeResult::AnnouncementWasBogus)));
    assert!(oracle.complete_event(stamped("/m/FOO_BAR.vs", "FOO_win"), Some(oracle_event.clone())).is_ok());
    let same = oracle.complete_event(stamped("/m/FOO_BAR.vs", "FOO_win"), Some(oracle_event.clone()));
    assert!(matches!(same, Err(OutcomeResult::AlreadyCompleted)));
    match oracle.complete_event(stamped("/m/FOO_BAR.vs", "draw"), Some(oracle_event)) {
        Err(e @ OutcomeResult::OutcomeChanged { .. }) => assert_eq!(
            e.to_message(),
            "event has already been attested to with 'FOO_win' but you are trying to set it to 'draw'"
        ),
        _ => panic!("expected the outcome to have changed"),
    }
}

#[test]
fn oracle_refuses_another_seed_for_its_store() {
    let oracle = Oracle::new(Seed::new([1u8; 64]), InMemory::new()).unwrap();
    let mut db = InMemory::new();
    db.set_public_keys(oracle.public_keys());
    assert!(Oracle::new(Seed::new([1u8; 64]), db).is_ok());
    let mut db = InMemory::new();
    db.set_public_keys(oracle.public_keys());
    assert_eq!(
        Oracle::new(Seed::new([2u8; 64]), db).err().unwrap(),
        "public key derived from seed does not match database"
    );
}

#[test]
fn attestation_that_does_not_match_fails() {
    let mut oracle = Oracle::new(Seed::new([3u8; 64]), InMemory::new()).unwrap();
    let keys = oracle.public_keys();
    let oracle_event = announced(&mut oracle, "/x/FOO_BAR.win");
    let outcome = stamped("/x/FOO_BAR.win", "BAR_win");
    assert!(oracle.complete_event(outcome, Some(oracle_event.clone())).is_ok());
    let event_id = EventId::from_str("/x/FOO_BAR.win").unwrap();
    let attestation = oracle.db().get_announced_event(&event_id).unwrap().attestation.unwrap();
    assert_eq!(attestation.verify_attestation(&oracle_event, &keys), Ok(()));

    let mut other = attestation.clone();
    other.outcome = "FOO_win".into();
    assert_eq!(other.verify_attestation(&oracle_event, &keys), Err(AttestationInvalid::OliviaV1));
    let mut other = attestation.clone();
    other.outcome = "nobody_win".into();
    assert_eq!(other.verify_attestation(&oracle_event, &keys), Err(AttestationInvalid::Outcome));
    let mut other = attestation.clone();
    other.schemes.olivia_v1 = None;
    assert_eq!(other.verify_attestation(&oracle_event, &keys), Err(AttestationInvalid::Missing));
    let mut other = attestation.clone();
    other.schemes.ecdsa_v1.as_mut().unwrap().signature.0[5] ^= 1;
    assert_eq!(other.verify_attestation(&oracle_event, &keys), Err(AttestationInvalid::EcdsaV1));
    let other_keys = Oracle::new(Seed::new([4u8; 64]), InMemory::new()).unwrap().public_keys();
    assert_eq!(attestation.verify_attestation(&oracle_event, &other_keys), Err(AttestationInvalid::OliviaV1));
    assert_eq!(AttestationInvalid::EcdsaV1.to_message(), "ecdsa-v1 attestation was invalid");
}

#[test]
fn announcement_verifies_only_under_its_key() {
    let kc = KeyChain::new(Seed::new([5u8; 64])).unwrap();
    let other = KeyChain::new(Seed::new([6u8; 64])).unwrap();
    let id = EventId::from_str("/a/b.occur").unwrap();
    let oracle_event = kc.oracle_event_for(Event::from_id(id.clone())).unwrap();
    let announcement = kc.create_announcement(encoded("/a/b.occur"));
    let key = kc.oracle_public_keys().announcement;
    assert!(announcement.oracle_event.verify(&key, &announcement.signature));
    assert!(announcement.verify_against_id(&id, &key, Some(oracle_event.clone())).is_some());
    let other_key = other.oracle_public_keys().announcement;
    assert!(announcement.verify_against_id(&id, &other_key, Some(oracle_event.clone())).is_none());
    let other_id = EventId::from_str("/a/c.occur").unwrap();
    assert!(announcement.verify_against_id(&other_id, &key, Some(oracle_event)).is_none());
}

#[test]
fn key_chain_is_a_function_of_the_seed() {
    let a = KeyChain::new(Seed::new([9u8; 64])).unwrap().oracle_public_keys();
    let b = KeyChain::new(Seed::new([9u8; 64])).unwrap().oracle_public_keys();
    let c = KeyChain::new(Seed::new([10u8; 64])).unwrap().oracle_public_keys();
    assert!(a.eq_keys(&b));
    assert!(!a.eq_keys(&c));
    assert_ne!(a.announcement.0, a.olivia_v1.unwrap().0);
    let kp = Secp256k1::derive_keypair(&Seed::new([9u8; 64])).unwrap();
    let np = Secp256k1::derive_nonce_keypair(&Seed::new([9u8; 64])).unwrap();
    assert_eq!(kp.public_key().0, np.public_nonce().0);
}

#[test]
fn nonces_for_event_one_per_nonce() {
    let kc = KeyChain::new(Seed::new([9u8; 64])).unwrap();
    let id = EventId::from_str("/a/b.occur").unwrap();
    assert_eq!(kc.nonces_for_event(&id).unwrap().len(), 1);
    let digits = EventId::from_str("/a/b.digits_3").unwrap();
    let nonces = kc.nonces_for_event(&digits).unwrap();
    assert_eq!(nonces.len(), 3);
    assert_ne!(nonces[0].public_nonce().0, nonces[1].public_nonce().0);
    let oracle_event = kc.oracle_event_for(Event::from_id(id)).unwrap();
    assert_eq!(oracle_event.schemes.olivia_v1.unwrap().nonces.len(), 1);
    assert!(oracle_event.schemes.ecdsa_v1.is_some());
}

fn store_with(ids: &[(&str, i64)]) -> InMemory {
    let kc = KeyChain::new(Seed::new([8u8; 64])).unwrap();
    let mut db = InMemory::new();
    for (id, secs) in ids {
        let event = Event {
            id: EventId::from_str(id).unwrap(),
            expected_outcome_time: Some(Timestamp { secs: *secs, nanos: 0 }),
        };
        let announcement = kc.create_announcement(encoded(id));
        db.insert_event(AnnouncedEvent { event, announcement, attestation: None }).unwrap();
    }
    db
}

#[test]
fn in_memory_insert_and_complete() {
    let mut db = store_with(&[("/a/b.occur", 10)]);
    let kc = KeyChain::new(Seed::new([8u8; 64])).unwrap();
    let dup = AnnouncedEvent {
        event: Event::from_id(EventId::from_str("/a/b.occur").unwrap()),
        announcement: kc.create_announcement(encoded("/a/b.occur")),
        attestation: None,
    };
    assert_eq!(db.insert_event(dup).err().unwrap(), "/a/b.occur already exists");
    let missing = EventId::from_str("/a/c.occur").unwrap();
    assert!(db.get_announced_event(&missing).is_none());
    let oracle_event = kc.oracle_event_for(Event::from_id(EventId::from_str("/a/b.occur").unwrap())).unwrap();
    let attestation = kc.attest_outcome(&oracle_event, &stamped("/a/b.occur", "true")).unwrap();
    assert_eq!(
        db.complete_event(&missing, attestation.clone()).err().unwrap(),
        "Cannot complete event that does not exist"
    );
    let id = EventId::from_str("/a/b.occur").unwrap();
    assert!(db.complete_event(&id, attestation.clone()).is_ok());
    assert_eq!(
        db.complete_event(&id, attestation).err().unwrap(),
        "This event has already been attested to"
    );
    assert!(db.get_announced_event(&id).unwrap().attestation.is_some());
}

#[test]
fn in_memory_queries_in_time_order() {
    let db = store_with(&[("/t/3.occur", 30), ("/t/1.occur", 10), ("/u/2.occur", 20), ("/t/FOO_BAR.vs", 5)]);
    let earliest = EventQuery::default();
    let ids: Vec<String> = db.query_events(earliest).iter().map(|e| e.id.as_str().to_string()).collect();
    assert_eq!(ids, vec!["/t/FOO_BAR.vs", "/t/1.occur", "/u/2.occur", "/t/3.occur"]);
    let mut latest_occur = EventQuery::default();
    latest_occur.order = Order::Latest;
    latest_occur.kind = Some(EventKind::SingleOccurrence);
    latest_occur.path = Some(PathRef::from_str_unchecked("/t"));
    let ids: Vec<String> = db.query_events(latest_occur).iter().map(|e| e.id.as_str().to_string()).collect();
    assert_eq!(ids, vec!["/t/3.occur", "/t/1.occur"]);
    assert_eq!(db.query_event(latest_occur).unwrap().id.as_str(), "/t/3.occur");
    let mut ends = EventQuery::default();
    ends.ends_with = PathRef::from_str_unchecked("/2");
    assert_eq!(db.query_event(ends).unwrap().id.as_str(), "/u/2.occur");
    let mut none = EventQuery::default();
    none.attested = Some(true);
    assert!(db.query_event(none).is_none());
}

#[test]
fn in_memory_nodes() {
    let mut db = store_with(&[("/n/b/x.occur", 3), ("/n/a/y.occur", 2), ("/n/a/z.occur", 1), ("/n.occur", 4)]);
    let node = db.get_node(PathRef::from_str_unchecked("/n")).unwrap();
    assert_eq!(node.events, vec![EventKind::SingleOccurrence]);
    match &node.child_desc {
        ChildDesc::List { list } => {
            let names: Vec<&str> = list.iter().map(|c| c.name.as_str()).collect();
            assert_eq!(names, vec!["a", "b"]);
        }
        _ => panic!("expected a list"),
    }
    assert!(db.get_node(PathRef::from_str_unchecked("/nothing")).is_none());
    db.set_node(Node {
        path: Path::from_str("/n").unwrap(),
        kind: NodeKind::Range { range_kind: RangeKind::Time { interval: 60 } },
    });
    match db.get_node(PathRef::from_str_unchecked("/n")).unwrap().child_desc {
        ChildDesc::Range { start, end, next_unattested, .. } => {
            assert_eq!(start.as_deref(), Some("a"));
            assert_eq!(end.as_deref(), Some("b"));
            assert_eq!(next_unattested.as_deref(), Some("a"));
        }
        _ => panic!("expected a range"),
    }
}

#[test]
fn rest_api_answers() {
    let mut oracle = Oracle::new(Seed::new([11u8; 64]), InMemory::new()).unwrap();
    announced(&mut oracle, "/r/s.occur");
    let db = oracle.db();
    match get_event(ApiReply::Value("r/s.occur".into()), None, db) {
        Some(ApiReply::Value(response)) => assert!(response.attestation.is_none()),
        _ => panic!("expected the event"),
    }
    match get_event(ApiReply::Value("r/t.occur".into()), None, db) {
        Some(ApiReply::Error(e)) => assert_eq!((e.code, e.error.as_str()), (404, "Not Found")),
        _ => panic!("expected not found"),
    }
    match get_event(ApiReply::Value("r/t.nope".into()), None, db) {
        Some(ApiReply::Error(e)) => assert_eq!(
            (e.code, e.error.as_str()),
            (400, "'/r/t.nope' is not a valid event id: nope is not a recognized event kind")
        ),
        _ => panic!("expected a bad request"),
    }
    assert!(get_event(ApiReply::Value("r/".into()), None, db).is_none());
    assert!(get_event(ApiReply::Value("r/s".into()), None, db).is_none());
    match get_path(ApiReply::Value("r/".into()), db) {
        ApiReply::Value(response) => assert_eq!(response.node.events, vec![]),
        _ => panic!("expected the path"),
    }
    match get_path(ApiReply::Value("q".into()), db) {
        ApiReply::Error(e) => assert_eq!(e.code, 404),
        _ => panic!("expected not found"),
    }
    match get_root(db) {
        ApiReply::Value(root) => assert!(root.public_keys.eq_keys(&oracle.public_keys())),
        _ => panic!("expected the root"),
    }
    match percent_decoded_tail("foo%20bar") {
        ApiReply::Value(tail) => assert_eq!(tail, "foo bar"),
        _ => panic!("expected a decoded tail"),
    }
    match percent_decoded_tail("%ff") {
        ApiReply::Error(e) => assert_eq!(e.code, 400),
        _ => panic!("expected a bad request"),
    }
    assert_eq!(ErrorMessage::from_status(404).error, "Not Found");
    assert_eq!(ErrorMessage::try_from_status(418).unwrap().error, "I'm a teapot");
    assert!(ErrorMessage::try_from_status(99).is_none());
    assert_eq!(ErrorMessage::internal_server_error().with_message("x".into()).code, 500);
}

#[test]
fn rest_api_path_scenario() {
    let mut oracle = Oracle::new(Seed::new([42u8; 64]), InMemory::new()).unwrap();
    match get_event(ApiReply::Value("test/one/two/3.occur".into()), None, oracle.db()) {
        Some(ApiReply::Error(e)) => assert_eq!((e.code, e.error.as_str()), (404, "Not Found")),
        _ => panic!("expected not found before the event is added"),
    }
    announced(&mut oracle, "/test/one/two/3.occur");
    match get_path(ApiReply::Value("test/one/two/42".into()), oracle.db()) {
        ApiReply::Error(e) => assert_eq!(e.code, 404, "similar but non-existing path should 404"),
        _ => panic!("expected not found"),
    }
    for tail in ["test/one/two/3", "test/one/two/3/"] {
        match get_path(ApiReply::Value(tail.into()), oracle.db()) {
            ApiReply::Value(response) => assert_eq!(response.node.events, vec![EventKind::SingleOccurrence]),
            _ => panic!("expected the node at {}", tail),
        }
    }
    announced(&mut oracle, "/test/one/two/4.occur");
    match get_path(ApiReply::Value("test/one/two".into()), oracle.db()) {
        ApiReply::Value(response) => assert_eq!(
            response.node.child_desc,
            ChildDesc::List {
                list: vec![
                    Child { name: "3".into(), kind: NodeKind::List },
                    Child { name: "4".into(), kind: NodeKind::List },
                ]
            }
        ),
        _ => panic!("expected the parent node"),
    }
}

#[test]
fn rest_api_root_and_event_scenario() {
    let mut oracle = Oracle::new(Seed::new([42u8; 64]), InMemory::new()).unwrap();
    let oracle_event = announced(&mut oracle, "/test/one/two/three.occur");
    let public_keys = match get_root(oracle.db()) {
        ApiReply::Value(root) => {
            assert_eq!(
                root.node.child_desc,
                ChildDesc::List { list: vec![Child { name: "test".into(), kind: NodeKind::List }] }
            );
            assert!(root.public_keys.eq_keys(&oracle.public_keys()));
            root.public_keys
        }
        _ => panic!("expected the root"),
    };
    match get_event(ApiReply::Value("test/one/two/four.occur".into()), None, oracle.db()) {
        Some(ApiReply::Error(e)) => assert_eq!(e.code, 404, "similar but non-existing event should 404"),
        _ => panic!("expected not found"),
    }
    let event_id = EventId::from_str("/test/one/two/three.occur").unwrap();
    match get_event(ApiReply::Value("test/one/two/three.occur".into()), None, oracle.db()) {
        Some(ApiReply::Value(response)) => assert!(response
            .announcement
            .verify_against_id(&event_id, &public_keys.announcement, Some(oracle_event))
            .is_some()),
        _ => panic!("expected the event"),
    }
}
