//! Events at regular times, and outcomes decided by the oracle once their time has
//! come.
//!
//! The streams wait and read the store between these decisions: each function here
//! takes what was read and says what comes next.
use vstd::prelude::*;
use crate::announcement::AnnouncedEvent;
use crate::attestation::Attestation;
use crate::db::{query_matches, time_le, EventQuery, Order, QueryView};
use crate::event::{spec_event_kind, spec_join_event, spec_n_outcomes, Event, EventId, EventKind};
use crate::outcome::{Outcome, StampedOutcome};
use crate::path::{spec_prefix_path, Path, PrefixPath};
use crate::sources::OutcomeCreator;
use crate::time::{chrono_date_time_text, Timestamp};

verus! {

/// Announces an event every `interval` seconds, `look_ahead` seconds before its time,
/// starting at `initial_time`; each under the path of its time, ending with
/// `ends_with`, of kind `event_kind`.
pub struct TimeEventStream {
    pub look_ahead: i64,
    pub interval: i64,
    pub initial_time: Timestamp,
    pub ends_with: Path,
    pub event_kind: EventKind,
}

/// The next event to announce, and the time to announce it at (`None`: at once).
pub struct TickerStep {
    pub event: Event,
    pub add_when: Option<Timestamp>,
}

/// The id of the ticker's event at a time: `ends_with` under the time's path.
pub open spec fn ticker_event_id(ends_with: Seq<char>, kind: EventKind, t: Timestamp) -> Option<Seq<char>> {
    match chrono_date_time_text(t.secs, t.nanos) {
        Some(text) => Some(spec_join_event(spec_prefix_path(ends_with, seq!['/'] + text), kind)),
        None => None,
    }
}

/// The expected time of the latest event, if there is one.
pub open spec fn latest_time(latest: Option<Event>) -> Option<Timestamp> {
    match latest {
        Some(e) => e.expected_outcome_time,
        None => None,
    }
}

/// The time of the event that follows an event at `latest` (the initial time when there
/// is none): one interval later.
pub open spec fn spec_next_time(s: TimeEventStream, latest: Option<Timestamp>) -> Timestamp {
    match latest {
        Some(t) => Timestamp { secs: (t.secs + s.interval) as i64, nanos: t.nanos },
        None => s.initial_time,
    }
}

/// When the event that follows an event at `latest` is announced: `look_ahead` before
/// its time (at once, `None`, for the first).
pub open spec fn spec_add_when(s: TimeEventStream, latest: Option<Timestamp>) -> Option<Timestamp> {
    match latest {
        Some(t) => Some(Timestamp { secs: (t.secs + s.interval - s.look_ahead) as i64, nanos: t.nanos }),
        None => None,
    }
}

/// The time of the `k`-th event that the ticker announces when each step follows the
/// one before.
pub open spec fn spec_ticker_time(s: TimeEventStream, k: nat) -> Timestamp
    decreases k,
{
    if k == 0 {
        spec_next_time(s, None)
    } else {
        spec_next_time(s, Some(spec_ticker_time(s, (k - 1) as nat)))
    }
}

/// The ticker's events are evenly spaced: the `k`-th is `k` intervals after the initial
/// time (while those times are in range), and each but the first is announced
/// `look_ahead` before its time.
pub proof fn lemma_ticker_times(s: TimeEventStream, k: nat)
    requires
        forall|j: nat| j <= k ==> i64::MIN <= #[trigger] (s.initial_time.secs + j * s.interval) <= i64::MAX,
    ensures
        spec_ticker_time(s, k) == (Timestamp {
            secs: (s.initial_time.secs + k * s.interval) as i64,
            nanos: s.initial_time.nanos,
        }),
        k > 0 ==> spec_add_when(s, Some(spec_ticker_time(s, (k - 1) as nat))) == Some(
            Timestamp {
                secs: (s.initial_time.secs + k * s.interval - s.look_ahead) as i64,
                nanos: s.initial_time.nanos,
            },
        ),
    decreases k,
{
    assert(s.initial_time.secs + 0nat * s.interval == s.initial_time.secs);
    if k > 0 {
        let j = (k - 1) as nat;
        assert(i64::MIN <= s.initial_time.secs + j * s.interval <= i64::MAX);
        lemma_ticker_times(s, j);
        assert(s.initial_time.secs + j * s.interval + s.interval == s.initial_time.secs + k * s.interval)
            by (nonlinear_arith)
            requires
                k == j + 1,
        ;
    }
}

impl TimeEventStream {
    /// The query for the latest event of the stream.
    pub fn latest_query(&self) -> (q: EventQuery<'static, '_>)
        ensures
            q@ == (None::<Seq<char>>, None::<bool>, Order::Latest, self.ends_with@, Some(self.event_kind)),
    {
        EventQuery {
            path: None,
            attested: None,
            order: Order::Latest,
            ends_with: self.ends_with.as_path_ref(),
            kind: Some(self.event_kind),
        }
    }

    /// The stream's event at time `dt`; `None` outside the range of chrono's dates.
    pub fn create_update(&self, dt: Timestamp) -> (r: Option<Event>)
        requires
            !(self.event_kind is Equals),
        ensures
            match r {
                Some(e) => ticker_event_id(self.ends_with@, self.event_kind, dt) == Some(e.id@)
                    && e.expected_outcome_time == Some(dt),
                None => ticker_event_id(self.ends_with@, self.event_kind, dt) is None,
            },
    {
        match Path::from_dt(dt) {
            Some(time_path) => {
                let path = self.ends_with.duplicate().prefix_path(time_path.as_path_ref());
                let id = EventId::from_path_and_kind(path, self.event_kind);
                Some(Event { id, expected_outcome_time: Some(dt) })
            },
            None => None,
        }
    }

    /// What follows the latest event of the stream: the event `interval` after it,
    /// announced `look_ahead` before its time; the event at `initial_time`, at once,
    /// when there is none.  `None` where the time is outside the range of chrono's
    /// dates.
    pub fn next_step(&self, latest: Option<Event>) -> (r: Option<TickerStep>)
        requires
            !(self.event_kind is Equals),
            latest matches Some(e) ==> (e.expected_outcome_time matches Some(t) && i64::MIN <= t.secs
                + self.interval <= i64::MAX && i64::MIN <= t.secs + self.interval - self.look_ahead
                <= i64::MAX),
        ensures
            match r {
                Some(step) => step.add_when == spec_add_when(*self, latest_time(latest))
                    && step.event.expected_outcome_time == Some(spec_next_time(*self, latest_time(latest)))
                    && ticker_event_id(
                    self.ends_with@,
                    self.event_kind,
                    spec_next_time(*self, latest_time(latest)),
                ) == Some(step.event.id@),
                None => ticker_event_id(
                    self.ends_with@,
                    self.event_kind,
                    spec_next_time(*self, latest_time(latest)),
                ) is None,
            },
    {
        match latest {
            Some(e) => {
                let t = match e.expected_outcome_time {
                    Some(t) => t,
                    None => {
                        assert(false);
                        return None;
                    },
                };
                let next = Timestamp { secs: t.secs + self.interval, nanos: t.nanos };
                let add_when = Timestamp { secs: next.secs - self.look_ahead, nanos: t.nanos };
                match self.create_update(next) {
                    Some(event) => Some(TickerStep { event, add_when: Some(add_when) }),
                    None => None,
                }
            },
            None => match self.create_update(self.initial_time) {
                Some(event) => Some(TickerStep { event, add_when: None }),
                None => None,
            },
        }
    }
}

/// Decides the outcomes of the unattested events ending with `ends_with` (of
/// `event_kind`, when set), earliest first, with `outcome_creator`.
pub struct TimeOutcomeStream<F> {
    pub ends_with: Path,
    pub event_kind: Option<EventKind>,
    pub outcome_creator: F,
}

impl<F: OutcomeCreator> TimeOutcomeStream<F> {
    /// The query for the next event to decide.
    pub fn pending_query(&self) -> (q: EventQuery<'static, '_>)
        ensures
            q@ == (None::<Seq<char>>, Some(false), Order::Earliest, self.ends_with@, self.event_kind),
    {
        EventQuery {
            path: None,
            attested: Some(false),
            order: Order::Earliest,
            ends_with: self.ends_with.as_path_ref(),
            kind: self.event_kind,
        }
    }

    /// The outcome of an event whose time has come, stamped with the time it was decided.
    pub fn outcome_for(&self, event: &Event, now: Timestamp) -> (s: StampedOutcome)
        requires
            event.id.wf(),
            self.outcome_creator.ready_for(event.id@),
        ensures
            s.outcome.id == event.id,
            s.outcome.value == self.outcome_creator.outcome_of(event.id@),
            s.time == now,
    {
        let value = self.outcome_creator.create_outcome(&event.id);
        StampedOutcome { outcome: Outcome { id: event.id.duplicate(), value }, time: now }
    }
}

/// The outcome stream decides pending events in time order: once the earliest pending
/// event (unattested, answering the stream's query) is attested, it is pending no more,
/// and every event still pending was pending before and is not earlier than it.
pub proof fn lemma_pending_after_attestation(
    events: Seq<AnnouncedEvent>,
    q: QueryView,
    i: int,
    attestation: Attestation,
    k: int,
)
    requires
        q.1 == Some(false),
        0 <= i < events.len(),
        0 <= k < events.len(),
        query_matches(q, events[i]),
        forall|j: int|
            0 <= j < events.len() && query_matches(q, #[trigger] events[j]) ==> time_le(
                events[i].event.expected_outcome_time,
                events[j].event.expected_outcome_time,
            ),
    ensures
        ({
            let after = events.update(
                i,
                AnnouncedEvent {
                    event: events[i].event,
                    announcement: events[i].announcement,
                    attestation: Some(attestation),
                },
            );
            &&& !query_matches(q, after[i])
            &&& query_matches(q, after[k]) ==> k != i && query_matches(q, events[k]) && time_le(
                events[i].event.expected_outcome_time,
                after[k].event.expected_outcome_time,
            )
        }),
{
}

} // verus!
