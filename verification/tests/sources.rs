use olivia::config::{EventSource, EventSourceConfig, OutcomeSource, OutcomeSourceConfig};
use olivia::event::{Event, EventId, EventKind};
use olivia::node::{NodeKind, RangeKind};
use olivia::outcome::{Outcome, StampedOutcome};
use olivia::path::Path;
use olivia::seed::Seed;
use olivia::sources::re_emit::{
    EventReEmitter, HeadsOrTailsEvents, HeadsOrTailsOutcomes, OutcomeReEmitter, Vs,
};
use olivia::sources::ticker::{TimeEventStream, TimeOutcomeStream};
use olivia::sources::{OutcomeCreator, RandomOutcomeCreator, ZeroOutcomeCreator};
use olivia::time::Timestamp;

fn time() -> Timestamp {
    Timestamp { secs: 1601452800, nanos: 0 }
}

#[test]
fn vs_vs_re_emit_events() {
    let incoming = vec![
        Event::from_id(EventId::from_str("/foo/bar/FOO_BAR.vs").unwrap()),
        Event::from_id(EventId::from_str("/foo/baz/FOO_BAZ.vs").unwrap()),
    ];
    let mut outcoming: Vec<String> = incoming
        .into_iter()
        .flat_map(|event| Vs.re_emit_event(event))
        .map(|event| event.id.as_str().to_string())
        .collect();
    let mut expecting = vec![
        "/foo/bar/FOO_BAR.win",
        "/foo/bar/FOO_BAR.vs",
        "/foo/baz/FOO_BAZ.win",
        "/foo/baz/FOO_BAZ.vs",
    ];
    expecting.sort();
    outcoming.sort();
    assert_eq!(outcoming, expecting);
}

#[test]
fn vs_vs_re_emit_outcomes() {
    let incoming = vec![
        StampedOutcome {
            outcome: Outcome { value: 0, id: EventId::from_str("/foo/bar/FOO1_BAR1.vs").unwrap() },
            time: time(),
        },
        StampedOutcome {
            outcome: Outcome { value: 1, id: EventId::from_str("/foo/bar/FOO2_BAR2.vs").unwrap() },
            time: time(),
        },
        StampedOutcome {
            outcome: Outcome { value: 2, id: EventId::from_str("/foo/bar/FOO3_BAR3.vs").unwrap() },
            time: time(),
        },
    ];
    let mut outcoming: Vec<String> = incoming
        .into_iter()
        .flat_map(|stamped| Vs.re_emit_outcome(stamped))
        .map(|stamped| stamped.outcome.to_string())
        .collect();
    let mut expecting = vec![
        "/foo/bar/FOO1_BAR1.vs=FOO1_win",
        "/foo/bar/FOO1_BAR1.win=FOO1_win",
        "/foo/bar/FOO2_BAR2.vs=BAR2_win",
        "/foo/bar/FOO2_BAR2.win=BAR2_win",
        "/foo/bar/FOO3_BAR3.vs=draw",
        "/foo/bar/FOO3_BAR3.win=BAR3_win",
    ];
    outcoming.sort();
    expecting.sort();
    assert_eq!(outcoming, expecting)
}

#[test]
fn random_heads_vs_tails_remit_events() {
    let incoming = vec![
        Event::from_id(EventId::from_str("/2020-09-30T08:00:00.occur").unwrap()),
        Event::from_id(EventId::from_str("/2020-09-30T08:01:00.occur").unwrap()),
    ];
    let mut outcoming: Vec<String> = incoming
        .into_iter()
        .flat_map(|event| HeadsOrTailsEvents.re_emit_event(event))
        .map(|event| event.id.as_str().to_string())
        .collect();
    let mut expecting =
        vec!["/2020-09-30T08:00:00/heads_tails.win", "/2020-09-30T08:01:00/heads_tails.win"];
    outcoming.sort();
    expecting.sort();
    assert_eq!(outcoming, expecting);
}

#[test]
fn random_heads_tails_remit_outcomes() {
    let incoming: Vec<StampedOutcome> = vec![
        EventId::from_str("/2020-09-30T08:00:00.occur").unwrap(),
        EventId::from_str("/2020-09-30T08:01:00.occur").unwrap(),
        EventId::from_str("/2020-09-30T08:02:00.occur").unwrap(),
    ]
    .into_iter()
    .map(|id| StampedOutcome { outcome: Outcome { value: 0, id }, time: time() })
    .collect();
    let subscriber = HeadsOrTailsOutcomes { seed: Seed::new([42u8; 64]) };
    let mut outcoming: Vec<String> = incoming
        .into_iter()
        .flat_map(|stamped| subscriber.re_emit_outcome(stamped))
        .map(|stamped| stamped.outcome.to_string())
        .collect();
    let mut expecting = vec![
        "/2020-09-30T08:00:00/heads_tails.win=tails_win",
        "/2020-09-30T08:01:00/heads_tails.win=heads_win",
        "/2020-09-30T08:02:00/heads_tails.win=heads_win",
    ];
    outcoming.sort();
    expecting.sort();
    assert_eq!(outcoming, expecting);
}

#[test]
fn random_outcome_creator() {
    let random_outcome_creator = RandomOutcomeCreator { seed: Seed::new([42u8; 64]), max: None };
    let random_outcomes = (0..10)
        .map(|i| {
            random_outcome_creator
                .create_outcome(&EventId::from_str(&format!("/{}/foo_bar.vs", i)).unwrap())
        })
        .collect::<Vec<_>>();
    assert_eq!(random_outcomes, [0, 2, 2, 1, 2, 0, 1, 2, 0, 0].to_vec())
}

#[test]
fn random_outcomes_stay_below_max() {
    let creator = RandomOutcomeCreator { seed: Seed::new([42u8; 64]), max: Some(1) };
    for i in 0..10 {
        let id = EventId::from_str(&format!("/{}/foo_bar.vs", i)).unwrap();
        assert_eq!(creator.create_outcome(&id), 0);
    }
    assert_eq!(ZeroOutcomeCreator.create_outcome(&EventId::from_str("/a/b.occur").unwrap()), 0);
}

#[test]
fn ticker_starts_at_initial_time_then_steps() {
    let ticker = TimeEventStream {
        look_ahead: 60,
        interval: 60,
        initial_time: time(),
        ends_with: Path::root(),
        event_kind: EventKind::SingleOccurrence,
    };
    let first = ticker.next_step(None).unwrap();
    assert!(first.add_when.is_none());
    assert_eq!(first.event.id.as_str(), "/2020-09-30T08:00:00.occur");
    let second = ticker.next_step(Some(first.event)).unwrap();
    assert_eq!(second.event.id.as_str(), "/2020-09-30T08:01:00.occur");
    assert_eq!(second.event.expected_outcome_time, Some(Timestamp { secs: 1601452860, nanos: 0 }));
    assert_eq!(second.add_when, Some(time()));
}

#[test]
fn ticker_puts_ends_with_under_the_time() {
    let ticker = TimeEventStream {
        look_ahead: 0,
        interval: 3600,
        initial_time: time(),
        ends_with: Path::from_str("/heads_tails").unwrap(),
        event_kind: EventKind::SingleOccurrence,
    };
    let event = ticker.create_update(time()).unwrap();
    assert_eq!(event.id.as_str(), "/2020-09-30T08:00:00/heads_tails.occur");
}

#[test]
fn time_outcome_stream_decides_with_its_creator() {
    let stream = TimeOutcomeStream {
        ends_with: Path::root(),
        event_kind: None,
        outcome_creator: ZeroOutcomeCreator,
    };
    let event = Event::from_id(EventId::from_str("/2020-09-30T08:00:00.occur").unwrap());
    let now = Timestamp { secs: 1601452801, nanos: 5 };
    let stamped = stream.outcome_for(&event, now);
    assert_eq!(stamped.outcome.value, 0);
    assert_eq!(stamped.time, now);
    assert_eq!(stamped.outcome.id, event.id);
}

#[test]
fn ticker_source_config() {
    let config = EventSourceConfig {
        event_source: EventSource::Ticker {
            interval: 60,
            look_ahead: 30,
            initial_time: None,
            ends_with: Path::root(),
            event_kind: EventKind::SingleOccurrence,
        },
        predicate: None,
    };
    let now = Timestamp { secs: 1601452835, nanos: 7 };
    let ticker = config.ticker(now).unwrap();
    assert_eq!(ticker.initial_time, Timestamp { secs: 1601452800, nanos: 0 });
    assert_eq!(ticker.interval, 60);
    assert_eq!(ticker.look_ahead, 30);
    let nodes = config.to_node_stream();
    assert_eq!(nodes.len(), 1);
    assert!(nodes[0].path.as_path_ref().is_root());
    assert_eq!(nodes[0].kind, NodeKind::Range { range_kind: RangeKind::Time { interval: 60 } });
}

#[test]
fn outcome_source_config() {
    let random = OutcomeSourceConfig {
        outcome_source: OutcomeSource::Random {
            ends_with: Path::root(),
            event_kind: None,
            max: Some(2),
        },
        complete_related: false,
    };
    let seed = OutcomeSourceConfig::seed_for(&Seed::new([1u8; 64]), &Path::from_str("/random").unwrap());
    assert_ne!(seed.as_ref()[..], [1u8; 64][..]);
    let stream = random.random_stream(seed).unwrap();
    assert_eq!(stream.outcome_creator.max, Some(2));
    assert!(random.zero_stream().is_none());
}

#[test]
fn zero_outcome_creator_picks_zero_for_every_event() {
    for id in ["/a/b.digits_3", "/a/b.price?n=4", "/a/b.occur", "/a/FOO_BAR.vs"] {
        assert_eq!(ZeroOutcomeCreator.create_outcome(&EventId::from_str(id).unwrap()), 0);
    }
}
