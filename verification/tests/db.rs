use olivia::announcement::{AnnouncedEvent, RawOracleEvent};
use olivia::attestation::Attestation;
use olivia::db::in_memory::InMemory;
use olivia::db::{EventQuery, Order};
use olivia::event::{Event, EventId, EventKind, VsMatchKind};
use olivia::keychain::KeyChain;
use olivia::node::{ChildDesc, GetPath, Node, NodeKind, RangeKind};
use olivia::outcome::{StampedOutcome, WireEventOutcome};
use olivia::path::{Path, PathRef, PrefixPath};
use olivia::oracle_info::OracleKeys;
use olivia::seed::Seed;
use olivia::time::Timestamp;

fn keychain() -> KeyChain {
    KeyChain::new(Seed::new([5u8; 64])).unwrap()
}

fn announced_event(event: Event) -> AnnouncedEvent {
    let json = format!("{{\"id\":\"{}\"}}", event.id.as_str());
    let announcement = keychain().create_announcement(RawOracleEvent::from_json_bytes(json.into_bytes()));
    AnnouncedEvent { event, announcement, attestation: None }
}

fn attestation_for(event: &Event, secs: i64) -> Attestation {
    let kc = keychain();
    let oracle_event = kc.oracle_event_for(event.duplicate()).unwrap();
    let stamped = StampedOutcome::try_from_wire_at(
        WireEventOutcome { event_id: event.id.clone(), outcome: "true".into(), time: None },
        Timestamp { secs, nanos: 0 },
    )
    .unwrap();
    kc.attest_outcome(&oracle_event, &stamped).unwrap()
}

fn id(s: &str) -> EventId {
    EventId::from_str(s).unwrap()
}

fn child_names(node: &GetPath) -> Vec<String> {
    match &node.child_desc {
        ChildDesc::List { list } => list.iter().map(|c| c.name.clone()).collect(),
        _ => panic!("children should be a list"),
    }
}

#[test]
fn db_insert_unattested_builds_the_tree() {
    let mut db = InMemory::new();
    let unattested = id("/test/db/test-insert-unattested.occur");
    let event = Event::from_id(unattested.clone());
    db.insert_event(announced_event(event.duplicate())).unwrap();
    let entry = db.get_announced_event(&unattested).unwrap();
    assert_eq!(entry.event, event);
    assert!(entry.attestation.is_none());

    let root = db.get_node(PathRef::root()).unwrap();
    assert_eq!(child_names(&root), vec!["test"]);
    assert!(root.events.is_empty());
    let test = db.get_node(PathRef::from_str_unchecked("/test")).unwrap();
    assert_eq!(child_names(&test), vec!["db"]);
    let test_db = db.get_node(PathRef::from_str_unchecked("/test/db")).unwrap();
    assert_eq!(child_names(&test_db), vec!["test-insert-unattested"]);
    let leaf = db.get_node(PathRef::from_str_unchecked("/test/db/test-insert-unattested")).unwrap();
    assert!(child_names(&leaf).is_empty());
    assert_eq!(leaf.events, vec![EventKind::SingleOccurrence]);
}

#[test]
fn db_insert_unattested_then_complete() {
    let mut db = InMemory::new();
    let event_id = id("/test/db/test-insert-unattested-then-complete.occur");
    let event = Event::from_id(event_id.clone());
    db.insert_event(announced_event(event.duplicate())).unwrap();
    let attestation = attestation_for(&event, 1601452800);
    db.complete_event(&event_id, attestation.clone()).unwrap();
    let entry = db.get_announced_event(&event_id).unwrap();
    assert_eq!(entry.attestation.unwrap().outcome, attestation.outcome);
}

#[test]
fn db_grandchild_and_child_of_event_node() {
    let mut db = InMemory::new();
    db.insert_event(announced_event(Event::from_id(id("/test/db/dbchild/grandchild.occur")))).unwrap();
    db.insert_event(announced_event(Event::from_id(id("/test/db/an-event.occur")))).unwrap();
    db.insert_event(announced_event(Event::from_id(id("/test/db/an-event/a-sub-event.occur")))).unwrap();

    let test_db = db.get_node(PathRef::from_str_unchecked("/test/db")).unwrap();
    assert_eq!(child_names(&test_db), vec!["an-event", "dbchild"]);
    let dbchild = db.get_node(PathRef::from_str_unchecked("/test/db/dbchild")).unwrap();
    assert_eq!(child_names(&dbchild), vec!["grandchild"]);
    let an_event = db.get_node(PathRef::from_str_unchecked("/test/db/an-event")).unwrap();
    assert_eq!(child_names(&an_event), vec!["a-sub-event"]);
    assert_eq!(an_event.events, vec![EventKind::SingleOccurrence]);
}

#[test]
fn db_get_non_existent() {
    let db = InMemory::new();
    assert!(db.get_announced_event(&id("/test/db/dont-exist.occur")).is_none());
    assert!(db.get_node(PathRef::from_str_unchecked("/test/db/dont-exist")).is_none());
}

#[test]
fn db_multiple_events_on_one_node() {
    let mut db = InMemory::new();
    db.insert_event(announced_event(Event::from_id(id("/test/db/RED_BLUE.vs")))).unwrap();
    db.insert_event(announced_event(Event::from_id(id("/test/db/RED_BLUE.win")))).unwrap();
    let node = db.get_node(PathRef::from_str_unchecked("/test/db/RED_BLUE")).unwrap();
    assert!(child_names(&node).is_empty());
    assert_eq!(node.events.len(), 2);
    assert!(node.events.contains(&EventKind::VsMatch(VsMatchKind::WinOrDraw)));
    assert!(node.events.contains(&EventKind::VsMatch(VsMatchKind::Win)));
}

#[test]
fn db_insert_and_get_public_keys() {
    let mut db = InMemory::new();
    assert!(db.get_public_keys().is_none());
    let keys = OracleKeys::test_oracle_keys();
    db.set_public_keys(keys);
    assert!(db.get_public_keys().unwrap().eq_keys(&keys));
}

#[test]
fn db_set_node_range_follows_attestations() {
    let mut db = InMemory::new();
    let times = ["2020-09-30T08:00:00", "2020-09-30T08:02:00", "2020-09-30T08:01:00"];
    let secs = [1601452800i64, 1601452920, 1601452860];
    let names = ["foo", "bar", "baz"];
    let mut events = Vec::new();
    for i in 0..3 {
        let event = Event {
            id: id(&format!("/test/time/{}/{}.occur", times[i], names[i])),
            expected_outcome_time: Some(Timestamp { secs: secs[i], nanos: 0 }),
        };
        db.insert_event(announced_event(event.duplicate())).unwrap();
        events.push(event);
    }
    db.set_node(Node {
        path: Path::from_str("/test/time").unwrap(),
        kind: NodeKind::Range { range_kind: RangeKind::Time { interval: 60 } },
    });
    let range = |start: &str, next: &str, end: &str| GetPath {
        events: vec![],
        child_desc: ChildDesc::Range {
            range_kind: RangeKind::Time { interval: 60 },
            start: Some(start.into()),
            next_unattested: Some(next.into()),
            end: Some(end.into()),
        },
    };
    assert_eq!(
        db.get_node(PathRef::from_str_unchecked("/test/time")).unwrap(),
        range(times[0], times[0], times[1]),
        "none are attested so next should be first"
    );

    db.complete_event(&events[0].id, attestation_for(&events[0], 1601452800)).unwrap();
    assert_eq!(
        db.get_node(PathRef::from_str_unchecked("/test/time")).unwrap(),
        range(times[0], times[2], times[1]),
        "after attesting event 'next' changes"
    );

    db.set_node(Node { path: Path::from_str("/test/time").unwrap(), kind: NodeKind::List });
    let node = db.get_node(PathRef::from_str_unchecked("/test/time")).unwrap();
    let mut expected: Vec<String> = times.iter().map(|t| t.to_string()).collect();
    expected.sort();
    assert_eq!(child_names(&node), expected);
}

fn occur_row(db: &mut InMemory, secs: i64, prefix: &str, attested: bool) -> Event {
    let time = Timestamp { secs, nanos: 0 };
    let event = Event::occur_event_from_dt(time).unwrap().prefix_path(PathRef::from_str_unchecked(prefix));
    let mut ann = announced_event(event.duplicate());
    if attested {
        ann.attestation = Some(attestation_for(&event, secs));
    }
    db.insert_event(ann).unwrap();
    event
}

#[test]
fn db_earliest_and_latest() {
    let mut db = InMemory::new();
    // an event outside the time paths, expected earlier than all of them
    db.insert_event(announced_event(Event {
        id: id("/foo/bar/baz.occur"),
        expected_outcome_time: Some(Timestamp { secs: 857174460, nanos: 0 }),
    }))
    .unwrap();

    let base = 1583020800i64; // 2020-03-01T00:00:00
    for (top, prefix) in [("/time", "/time"), ("/time2", "/time2/nested/deeper")] {
        let rows = [
            occur_row(&mut db, base + 25 * 60, prefix, false),
            occur_row(&mut db, base + 30 * 60, prefix, false),
            occur_row(&mut db, base + 20 * 60, prefix, false),
            occur_row(&mut db, base + 10 * 60, prefix, true),
            occur_row(&mut db, base + 5 * 60, prefix, true),
            occur_row(&mut db, base + 15 * 60, prefix, true),
        ];
        let mut latest = EventQuery::default();
        latest.path = Some(PathRef::from_str_unchecked(top));
        latest.order = Order::Latest;
        assert_eq!(db.query_event(latest).unwrap(), rows[1], "latest_time_event");

        let mut earliest_unattested = EventQuery::default();
        earliest_unattested.path = Some(PathRef::from_str_unchecked(top));
        earliest_unattested.attested = Some(false);
        assert_eq!(db.query_event(earliest_unattested).unwrap(), rows[2], "earliest_unattested_time_event");
    }
    assert_eq!(
        db.query_event(EventQuery::default()).unwrap().id.as_str(),
        "/foo/bar/baz.occur"
    );
    let mut from_root = EventQuery::default();
    from_root.path = Some(PathRef::root());
    assert_eq!(db.query_event(from_root).unwrap().id.as_str(), "/foo/bar/baz.occur");
}

#[test]
fn db_node_of_event_written_with_question_mark() {
    let mut db = InMemory::new();
    db.insert_event(announced_event(Event::from_id(id("/a?occur")))).unwrap();
    let node = db.get_node(PathRef::from_str_unchecked("/a")).unwrap();
    assert_eq!(node.events, vec![EventKind::SingleOccurrence]);
    assert!(child_names(&node).is_empty());
    let root = db.get_node(PathRef::root()).unwrap();
    assert_eq!(child_names(&root), vec!["a"]);
    assert!(root.events.is_empty());
}

#[test]
fn db_date_map_groups_children_by_date() {
    let mut db = InMemory::new();
    for s in [
        "/sports/2021-10-05/FOO_BAR.vs",
        "/sports/2021-10-04/A_B.win",
        "/sports/2021-10-05/BAZ_QUX.vs",
        "/sports/2021-10-05/FOO_BAR.win",
        "/sports/not-a-date/X_Y.vs",
        "/sports/2021-10-06.occur",
    ] {
        db.insert_event(announced_event(Event::from_id(id(s)))).unwrap();
    }
    db.set_node(Node { path: Path::from_str("/sports").unwrap(), kind: NodeKind::DateMap });
    let node = db.get_node(PathRef::from_str_unchecked("/sports")).unwrap();
    assert!(node.events.is_empty());
    match node.child_desc {
        ChildDesc::DateMap { dates } => {
            let dates: Vec<((i32, u32, u32), Vec<String>)> = dates
                .into_iter()
                .map(|(d, mut names)| {
                    names.sort();
                    (d, names)
                })
                .collect();
            assert_eq!(
                dates,
                vec![
                    ((2021, 10, 4), vec!["A_B".to_string()]),
                    ((2021, 10, 5), vec!["BAZ_QUX".to_string(), "FOO_BAR".to_string()]),
                ]
            );
        }
        other => panic!("expected a date map, got {:?}", other),
    }
    assert!(db.get_node(PathRef::from_str_unchecked("/nothing")).is_none());
}
