//! The oracle's configuration, as the configuration file states it.
use vstd::prelude::*;
use crate::event::{Event, EventKind};
use crate::node::{Node, NodeKind, RangeKind};
use crate::path::{root_chars, Path};
use crate::seed::{blake2b_keyed_64, Seed};
use crate::sources::ticker::{TimeEventStream, TimeOutcomeStream};
use crate::sources::{derived_events, spec_derived_events, OutcomeFilter, Predicate, RandomOutcomeCreator, ZeroOutcomeCreator};
use crate::time::{start_of_minute, Timestamp};
use vstd::utf8::encode_utf8;

verus! {

/// Where the oracle keeps its events.
#[derive(Debug, Clone)]
pub enum DbConfig {
    Postgres { url: String },
    InMemory,
}

impl Default for DbConfig {
    fn default() -> (c: Self)
        ensures
            c is InMemory,
    {
        DbConfig::InMemory
    }
}

/// A redis server and the lists on it to read from.
#[derive(Debug, Clone)]
pub struct RedisConfig {
    pub url: String,
    pub lists: Vec<String>,
}

/// The kind of predicate event to derive: equality (`=`) or a lower bound (`_`).
#[derive(Debug, Clone, Copy, PartialEq, Eq, Structural)]
pub enum PredicateKind {
    Eq,
    Gt,
}

/// Derives predicate events for the outcomes that the filter chooses.
#[derive(Debug, Clone)]
pub struct PredicateConfig {
    pub kind: PredicateKind,
    pub filter: OutcomeFilter,
}

/// Where events come from.
#[derive(Debug, Clone)]
pub enum EventSource {
    /// An event every `interval` seconds, announced `look_ahead` seconds ahead.
    Ticker {
        interval: u32,
        look_ahead: u32,
        initial_time: Option<Timestamp>,
        ends_with: Path,
        event_kind: EventKind,
    },
    /// Events read from redis lists.
    Redis(RedisConfig),
    /// Events given in the configuration.
    Init { events: Vec<Event> },
}

/// An event source and the predicate events to derive from its events.
#[derive(Debug, Clone)]
pub struct EventSourceConfig {
    pub event_source: EventSource,
    pub predicate: Option<PredicateConfig>,
}

impl EventSourceConfig {
    /// The ticker of a `Ticker` source (`None` for the others): its seconds as given,
    /// starting at the initial time, or at the start of the current minute without one.
    pub fn ticker(&self, now: Timestamp) -> (r: Option<TimeEventStream>)
        requires
            now.secs >= i64::MIN + 59,
        ensures
            match self.event_source {
                EventSource::Ticker { interval, look_ahead, initial_time, ends_with, event_kind } => r matches Some(t)
                    && t.interval == interval && t.look_ahead == look_ahead && t.ends_with@ == ends_with@
                    && t.event_kind == event_kind && t.initial_time == match initial_time {
                    Some(it) => it,
                    None => Timestamp { secs: (now.secs - now.secs % 60) as i64, nanos: 0 },
                },
                _ => r is None,
            },
    {
        match &self.event_source {
            EventSource::Ticker { interval, look_ahead, initial_time, ends_with, event_kind } => {
                let initial_time = match initial_time {
                    Some(it) => *it,
                    None => start_of_minute(now),
                };
                Some(TimeEventStream {
                    look_ahead: *look_ahead as i64,
                    interval: *interval as i64,
                    initial_time,
                    ends_with: ends_with.duplicate(),
                    event_kind: *event_kind,
                })
            },
            _ => None,
        }
    }

    /// What the source yields for an event it produced: the event, followed by the
    /// predicate events derived from it when a predicate is configured.
    pub fn events_for(&self, event: &Event) -> (r: Vec<Event>)
        requires
            event.id.wf(),
        ensures
            match self.predicate {
                Some(pc) => {
                    let d = spec_derived_events(Predicate { outcome_filter: pc.filter, predicate_kind: pc.kind }, *event);
                    &&& r@.len() == d.len()
                    &&& forall|k: int| 0 <= k < r@.len() ==> ((#[trigger] r@[k]).id@, r@[k].expected_outcome_time) == d[k]
                },
                None => r@.len() == 1 && r@[0].id@ == event.id@ && r@[0].expected_outcome_time
                    == event.expected_outcome_time,
            },
    {
        match &self.predicate {
            Some(pc) => derived_events(pc.kind, &pc.filter, event),
            None => {
                let mut r: Vec<Event> = Vec::new();
                r.push(event.duplicate());
                r
            },
        }
    }

    /// The nodes a source sets: a ticker makes the root a range of times `interval` apart.
    pub fn to_node_stream(&self) -> (r: Vec<Node>)
        ensures
            match self.event_source {
                EventSource::Ticker { interval, .. } => r@.len() == 1 && r@[0].path@ == root_chars()
                    && r@[0].kind == (NodeKind::Range { range_kind: RangeKind::Time { interval } }),
                _ => r@.len() == 0,
            },
    {
        let mut r: Vec<Node> = Vec::new();
        match &self.event_source {
            EventSource::Ticker { interval, .. } => {
                r.push(Node {
                    path: Path::root(),
                    kind: NodeKind::Range { range_kind: RangeKind::Time { interval: *interval } },
                });
            },
            _ => {},
        }
        r
    }
}

/// Where outcomes come from.
#[derive(Debug, Clone)]
pub enum OutcomeSource {
    /// Generate a random outcome (deterministically).
    Random { ends_with: Path, event_kind: Option<EventKind>, max: Option<u64> },
    /// Always answer zero.
    Zero { ends_with: Path, event_kind: Option<EventKind> },
    /// Get outcomes from redis.
    Redis(RedisConfig),
}

/// An outcome source, and whether to complete the events related to its outcomes.
#[derive(Debug, Clone)]
pub struct OutcomeSourceConfig {
    pub outcome_source: OutcomeSource,
    pub complete_related: bool,
}

/// The seed of the outcome sources under `parent`.
pub open spec fn outcome_seed(secret_seed: Seq<u8>, parent: Seq<char>) -> Seq<u8> {
    blake2b_keyed_64(secret_seed, encode_utf8(parent))
}

impl OutcomeSourceConfig {
    /// The seed that the outcome sources under `parent` draw with.
    pub fn seed_for(secret_seed: &Seed, parent: &Path) -> (s: Seed)
        ensures
            s@ == outcome_seed(secret_seed@, parent@),
    {
        secret_seed.child(parent.as_str().as_bytes())
    }

    /// The stream of a `Random` source, drawing with `seed` (`None` for the others).
    pub fn random_stream(&self, seed: Seed) -> (r: Option<TimeOutcomeStream<RandomOutcomeCreator>>)
        ensures
            match self.outcome_source {
                OutcomeSource::Random { ends_with, event_kind, max } => r matches Some(t) && t.ends_with@ == ends_with@
                    && t.event_kind == event_kind && t.outcome_creator.seed@ == seed@ && t.outcome_creator.max == max,
                _ => r is None,
            },
    {
        match &self.outcome_source {
            OutcomeSource::Random { ends_with, event_kind, max } => Some(TimeOutcomeStream {
                ends_with: ends_with.duplicate(),
                event_kind: *event_kind,
                outcome_creator: RandomOutcomeCreator { seed, max: *max },
            }),
            _ => None,
        }
    }

    /// The stream of a `Zero` source (`None` for the others).
    pub fn zero_stream(&self) -> (r: Option<TimeOutcomeStream<ZeroOutcomeCreator>>)
        ensures
            match self.outcome_source {
                OutcomeSource::Zero { ends_with, event_kind } => r matches Some(t) && t.ends_with@ == ends_with@
                    && t.event_kind == event_kind,
                _ => r is None,
            },
    {
        match &self.outcome_source {
            OutcomeSource::Zero { ends_with, event_kind } => Some(TimeOutcomeStream {
                ends_with: ends_with.duplicate(),
                event_kind: *event_kind,
                outcome_creator: ZeroOutcomeCreator,
            }),
            _ => None,
        }
    }
}

/// Which terminal stream a logger writes to.
#[derive(Debug, Clone, Copy, PartialEq, Eq, Structural)]
pub enum TermConfig {
    Stdout,
    Stderr,
}

} // verus!
