use olivia::announcement::{AnnouncedEvent, RawOracleEvent};
use olivia::config::{EventSource, EventSourceConfig, PredicateConfig, PredicateKind};
use olivia::db::in_memory::InMemory;
use olivia::db::prefixed::PrefixedDb;
use olivia::event::{Event, EventId};
use olivia::keychain::KeyChain;
use olivia::outcome::Outcome;
use olivia::path::Path;
use olivia::seed::Seed;
use olivia::sources::complete_related::CompleteRelated;
use olivia::sources::{OutcomeFilter, Pattern, Predicate};
use olivia::time::Timestamp;

fn id(s: &str) -> EventId {
    EventId::from_str(s).unwrap()
}

fn at() -> Option<Timestamp> {
    Some(Timestamp { secs: 1601452800, nanos: 0 })
}

fn ids_and_times(events: &[Event]) -> Vec<(String, Option<Timestamp>)> {
    events.iter().map(|e| (e.id.as_str().to_string(), e.expected_outcome_time)).collect()
}

#[test]
fn eq_predicates_on_every_outcome_of_a_vs_match() {
    let pred = Predicate { outcome_filter: OutcomeFilter::Pattern(Pattern::All), predicate_kind: PredicateKind::Eq };
    let event = Event { id: id("/foo/bar/FOO_BAR.vs"), expected_outcome_time: at() };
    let derived = pred.derive_events(&event);
    assert_eq!(
        ids_and_times(&derived),
        vec![
            ("/foo/bar/FOO_BAR.vs".to_string(), at()),
            ("/foo/bar/FOO_BAR.vs=FOO_win".to_string(), at()),
            ("/foo/bar/FOO_BAR.vs=BAR_win".to_string(), at()),
            ("/foo/bar/FOO_BAR.vs=draw".to_string(), at()),
        ]
    );
}

#[test]
fn eq_predicates_on_chosen_outcomes() {
    let eq = olivia::sources::eq::Eq { outcome_filter: OutcomeFilter::Indexes(vec![2]) };
    let ids: Vec<String> =
        eq.apply_to_event_id(&id("/foo/bar/FOO_BAR.vs")).iter().map(|i| i.as_str().to_string()).collect();
    assert_eq!(ids, vec!["/foo/bar/FOO_BAR.vs=draw".to_string()]);
    let occur = Predicate { outcome_filter: OutcomeFilter::Indexes(vec![0]), predicate_kind: PredicateKind::Eq };
    let ids: Vec<String> = occur
        .apply_to_event_id(&id("/time/2020-09-30T08:00:00.occur"))
        .iter()
        .map(|i| i.as_str().to_string())
        .collect();
    assert_eq!(ids, vec!["/time/2020-09-30T08:00:00.occur=true".to_string()]);
}

#[test]
fn gt_predicates_on_a_price() {
    let pred = Predicate { outcome_filter: OutcomeFilter::Indexes(vec![100, 20000]), predicate_kind: PredicateKind::Gt };
    let event = Event { id: id("/x/BitMEX/BXBT/2021-10-05T5:00:00.price"), expected_outcome_time: None };
    assert!(pred.applies_to(&event.id));
    assert_eq!(
        ids_and_times(&pred.derive_events(&event)),
        vec![
            ("/x/BitMEX/BXBT/2021-10-05T5:00:00.price".to_string(), None),
            ("/x/BitMEX/BXBT/2021-10-05T5:00:00.price_100".to_string(), None),
            ("/x/BitMEX/BXBT/2021-10-05T5:00:00.price_20000".to_string(), None),
        ]
    );
}

#[test]
fn predicates_that_do_not_apply_leave_the_event_alone() {
    let gt_on_vs = Predicate { outcome_filter: OutcomeFilter::Indexes(vec![1]), predicate_kind: PredicateKind::Gt };
    let eq_on_price = Predicate { outcome_filter: OutcomeFilter::Pattern(Pattern::All), predicate_kind: PredicateKind::Eq };
    let out_of_range = Predicate { outcome_filter: OutcomeFilter::Indexes(vec![3]), predicate_kind: PredicateKind::Eq };
    let vs = Event { id: id("/foo/bar/FOO_BAR.vs"), expected_outcome_time: at() };
    let price = Event { id: id("/x/BXBT/2021-10-05T5:00:00.price"), expected_outcome_time: at() };
    assert!(!gt_on_vs.applies_to(&vs.id));
    assert!(!eq_on_price.applies_to(&price.id));
    assert!(!out_of_range.applies_to(&vs.id));
    assert_eq!(ids_and_times(&gt_on_vs.derive_events(&vs)), vec![("/foo/bar/FOO_BAR.vs".to_string(), at())]);
    assert_eq!(ids_and_times(&eq_on_price.derive_events(&price)), ids_and_times(&[price.clone()]));
    assert_eq!(ids_and_times(&out_of_range.derive_events(&vs)), vec![("/foo/bar/FOO_BAR.vs".to_string(), at())]);
}

#[test]
fn source_config_adds_its_predicate_events() {
    let event = Event { id: id("/foo/bar/FOO_BAR.win"), expected_outcome_time: at() };
    let plain = EventSourceConfig { event_source: EventSource::Init { events: vec![] }, predicate: None };
    assert_eq!(ids_and_times(&plain.events_for(&event)), vec![("/foo/bar/FOO_BAR.win".to_string(), at())]);
    let with_eq = EventSourceConfig {
        event_source: EventSource::Init { events: vec![] },
        predicate: Some(PredicateConfig { kind: PredicateKind::Eq, filter: OutcomeFilter::Pattern(Pattern::All) }),
    };
    assert_eq!(
        ids_and_times(&with_eq.events_for(&event)),
        vec![
            ("/foo/bar/FOO_BAR.win".to_string(), at()),
            ("/foo/bar/FOO_BAR.win=FOO_win".to_string(), at()),
            ("/foo/bar/FOO_BAR.win=BAR_win".to_string(), at()),
        ]
    );
}

fn announced(s: &str) -> AnnouncedEvent {
    let keychain = KeyChain::new(Seed::new([7u8; 64])).unwrap();
    let json = format!("{{\"id\":\"{}\"}}", s);
    let announcement = keychain.create_announcement(RawOracleEvent::from_json_bytes(json.into_bytes()));
    AnnouncedEvent { event: Event::from_id(id(s)), announcement, attestation: None }
}

fn related_of(db: &InMemory, outcome: Outcome) -> Vec<(String, u64)> {
    let complete = CompleteRelated { db: PrefixedDb::new(db, Path::root()) };
    let mut found: Vec<(String, u64)> =
        complete.complete_related(&outcome).iter().map(|o| (o.id.as_str().to_string(), o.value)).collect();
    found.sort();
    found
}

#[test]
fn complete_related_answers_the_predicates_of_a_vs_match() {
    let mut db = InMemory::new();
    for s in [
        "/foo/bar/FOO_BAR.vs",
        "/foo/bar/FOO_BAR.vs=FOO_win",
        "/foo/bar/FOO_BAR.vs=draw",
        "/foo/bar/FOO_BAR.win=FOO_win",
        "/foo/baz/FOO_BAZ.vs=FOO_win",
    ] {
        db.insert_event(announced(s)).unwrap();
    }
    let foo_wins = Outcome { id: id("/foo/bar/FOO_BAR.vs"), value: 0 };
    assert_eq!(
        related_of(&db, foo_wins),
        vec![("/foo/bar/FOO_BAR.vs=FOO_win".to_string(), 1), ("/foo/bar/FOO_BAR.vs=draw".to_string(), 0)]
    );
    let draw = Outcome { id: id("/foo/bar/FOO_BAR.vs"), value: 2 };
    assert_eq!(
        related_of(&db, draw),
        vec![("/foo/bar/FOO_BAR.vs=FOO_win".to_string(), 0), ("/foo/bar/FOO_BAR.vs=draw".to_string(), 1)]
    );
    let win_only = Outcome { id: id("/foo/bar/FOO_BAR.win"), value: 0 };
    assert_eq!(related_of(&db, win_only), vec![]);
}

#[test]
fn complete_related_gives_a_price_to_the_events_beside_it() {
    let mut db = InMemory::new();
    for s in [
        "/x/BXBT/2021-10-05T5:00:00.price",
        "/x/BXBT/2021-10-05T5:00:00.price?n=20",
        "/x/BXBT/2021-10-05T5:00:00.price_100",
        "/x/BXBT/2021-10-05T5:00:00.price_60000",
        "/x/BXBT/2021-10-06T5:00:00.price_100",
    ] {
        db.insert_event(announced(s)).unwrap();
    }
    let price = Outcome { id: id("/x/BXBT/2021-10-05T5:00:00.price"), value: 50000 };
    assert_eq!(
        related_of(&db, price),
        vec![
            ("/x/BXBT/2021-10-05T5:00:00.price".to_string(), 50000),
            ("/x/BXBT/2021-10-05T5:00:00.price?n=20".to_string(), 50000),
            ("/x/BXBT/2021-10-05T5:00:00.price_100".to_string(), 1),
            ("/x/BXBT/2021-10-05T5:00:00.price_60000".to_string(), 0),
        ]
    );
}

#[test]
fn completion_agrees_with_predicate_outcomes() {
    let mut db = InMemory::new();
    let vs = "/foo/bar/FOO_BAR.vs";
    let outcome = Outcome { id: id(vs), value: 1 };
    let predicated: Vec<Outcome> = (0..3).map(|v| outcome.predicate_eq(v)).collect();
    db.insert_event(announced(vs)).unwrap();
    for p in &predicated {
        db.insert_event(announced(p.id.as_str())).unwrap();
    }
    let mut expected: Vec<(String, u64)> =
        predicated.iter().map(|p| (p.id.as_str().to_string(), p.value)).collect();
    expected.sort();
    assert_eq!(related_of(&db, outcome), expected);
}
