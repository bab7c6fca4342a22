//! Where events and outcomes come from, and what follows from them.
use vstd::prelude::*;
use rand::{Rng, SeedableRng};
use vstd::utf8::encode_utf8;
use crate::config::PredicateKind;
use crate::event::{spec_event_kind, spec_event_path, spec_join_event, spec_n_outcomes, Event, EventId, EventKind};
use crate::time::Timestamp;
use crate::outcome::spec_outcome_string;
use crate::seed::{blake2b_keyed_64, Seed};

pub mod complete_related;
pub mod eq;
pub mod re_emit;
pub mod ticker;


verus! {

/// The `rand` crate's `gen_range(0..max)` on a ChaCha20 generator seeded with `seed`.
pub uninterp spec fn chacha20_gen_below(seed: Seq<u8>, max: u64) -> u64;

/// `rand::Rng::gen_range(0..max)` on `chacha20::ChaCha20Rng::from_seed(seed)`.
///
/// The contract names the value and states that it lies in the range, as `rand`
/// documents; which value the generator draws is not stated.
#[verifier::external_body]
fn chacha20_below(seed: [u8; 32], max: u64) -> (v: u64)
    requires
        max > 0,
    ensures
        v == chacha20_gen_below(seed@, max),
        v < max,
{
    let mut rng = chacha20::ChaCha20Rng::from_seed(seed);
    rng.gen_range(0..max)
}

/// Picks the outcome of an event that the oracle decides itself.
pub trait OutcomeCreator {
    /// The creator can pick an outcome for the event `id`.
    spec fn ready_for(&self, id: Seq<char>) -> bool;

    /// The outcome the creator picks for the event `id`.
    spec fn outcome_of(&self, id: Seq<char>) -> u64;

    fn create_outcome(&self, id: &EventId) -> (v: u64)
        requires
            id.wf(),
            self.ready_for(id@),
        ensures
            v == self.outcome_of(id@),
    ;
}

/// The upper bound (exclusive) that `RandomOutcomeCreator` draws below.
pub open spec fn spec_random_bound(max: Option<u64>, n_outcomes: nat) -> nat {
    match max {
        Some(m) => if m < n_outcomes {
            m as nat
        } else {
            n_outcomes
        },
        None => n_outcomes,
    }
}

/// The first 32 bytes of the seed's child for the event.
pub open spec fn spec_event_randomness(seed: Seq<u8>, id: Seq<char>) -> Seq<u8> {
    blake2b_keyed_64(seed, encode_utf8(id)).take(32)
}

/// Draws an outcome from a generator seeded by the event's child of the seed.
pub struct RandomOutcomeCreator {
    pub seed: Seed,
    pub max: Option<u64>,
}

impl RandomOutcomeCreator {
    /// A creator that can draw for every event.
    pub open spec fn wf(&self) -> bool {
        self.max != Some(0u64)
    }

    /// Draws the outcome of `id`: below its number of outcomes, and below `max` when set.
    pub fn random_outcome(&self, id: &EventId) -> (v: u64)
        requires
            id.wf_enum(),
            self.wf(),
        ensures
            v == chacha20_gen_below(
                spec_event_randomness(self.seed@, id@),
                spec_random_bound(self.max, spec_n_outcomes(spec_event_kind(id@))) as u64,
            ),
            v < spec_random_bound(self.max, spec_n_outcomes(spec_event_kind(id@))),
    {
        let event_randomness = self.seed.child(id.as_bytes());
        let bytes = event_randomness.as_ref();
        let mut chacha_bytes = [0u8; 32];
        let mut i: usize = 0;
        while i < 32
            invariant
                i <= 32,
                bytes@.len() == 64,
                forall|j: int| 0 <= j < i ==> chacha_bytes@[j] == bytes@[j],
                chacha_bytes@.len() == 32,
            decreases 32 - i,
        {
            chacha_bytes[i] = bytes[i];
            i = i + 1;
        }
        assert(chacha_bytes@ =~= bytes@.take(32));
        let n_outcomes = id.n_outcomes();
        let max = match self.max {
            Some(m) => if m < n_outcomes {
                m
            } else {
                n_outcomes
            },
            None => n_outcomes,
        };
        chacha20_below(chacha_bytes, max)
    }
}

impl OutcomeCreator for RandomOutcomeCreator {
    /// A random outcome is drawn below the event's number of outcomes, which digit and
    /// price events do not have.
    open spec fn ready_for(&self, id: Seq<char>) -> bool {
        self.wf() && crate::event::is_enum_kind(spec_event_kind(id))
    }

    open spec fn outcome_of(&self, id: Seq<char>) -> u64 {
        chacha20_gen_below(
            spec_event_randomness(self.seed@, id),
            spec_random_bound(self.max, spec_n_outcomes(spec_event_kind(id))) as u64,
        )
    }

    fn create_outcome(&self, id: &EventId) -> (v: u64)
        ensures
            v < spec_random_bound(self.max, spec_n_outcomes(spec_event_kind(id@))),
            v == chacha20_gen_below(
                spec_event_randomness(self.seed@, id@),
                spec_random_bound(self.max, spec_n_outcomes(spec_event_kind(id@))) as u64,
            ),
    {
        self.random_outcome(id)
    }
}

/// Always picks the first outcome.
pub struct ZeroOutcomeCreator;

impl OutcomeCreator for ZeroOutcomeCreator {
    open spec fn ready_for(&self, id: Seq<char>) -> bool {
        true
    }

    open spec fn outcome_of(&self, id: Seq<char>) -> u64 {
        0
    }

    fn create_outcome(&self, _id: &EventId) -> (v: u64)
        ensures
            v == 0,
    {
        0
    }
}

/// A choice of outcome values.
#[derive(Clone, Debug)]
pub enum Pattern {
    /// Every outcome.
    All,
}

/// The outcomes a predicate is made for.
#[derive(Clone, Debug)]
pub enum OutcomeFilter {
    Pattern(Pattern),
    Indexes(Vec<u64>),
}

/// The outcome values of `id` that the filter chooses: all of them, or those listed.
pub open spec fn spec_outcomes_for(f: OutcomeFilter, id: Seq<char>) -> Seq<u64> {
    match f {
        OutcomeFilter::Pattern(Pattern::All) => Seq::new(spec_n_outcomes(spec_event_kind(id)), |i: int| i as u64),
        OutcomeFilter::Indexes(chosen) => chosen@,
    }
}

/// The id of the predicate of kind `kind` on the event `id` for the value `value`:
/// `<id>=<outcome>` for equality, `<path>.price_<value>` for a bound on a price.
pub open spec fn spec_predicate_id(kind: PredicateKind, id: Seq<char>, value: u64) -> Seq<char> {
    match kind {
        PredicateKind::Eq => id + seq!['='] + spec_outcome_string(id, value),
        PredicateKind::Gt => spec_join_event(spec_event_path(id), EventKind::PriceAbove(value as u32)),
    }
}

/// The predicates of a kind can be made on `id` for the values the filter chooses:
/// an equality names outcomes of a `vs`, `win` or `occur` event; a bound applies to a
/// price, with the listed bounds.
pub open spec fn predicate_applies(kind: PredicateKind, f: OutcomeFilter, id: EventId) -> bool {
    match kind {
        PredicateKind::Eq => {
            &&& id.wf_enum()
            &&& (spec_event_kind(id@) is VsMatch || spec_event_kind(id@) is SingleOccurrence)
            &&& forall|k: int|
                0 <= k < spec_outcomes_for(f, id@).len() ==> #[trigger] spec_outcomes_for(f, id@)[k]
                    < spec_n_outcomes(spec_event_kind(id@))
        },
        PredicateKind::Gt => {
            &&& id.wf()
            &&& spec_event_kind(id@) is Price
            &&& f is Indexes
            &&& forall|k: int|
                0 <= k < spec_outcomes_for(f, id@).len() ==> #[trigger] spec_outcomes_for(f, id@)[k]
                    < 0x1_0000_0000
        },
    }
}

/// Derives predicate events from an event: one per outcome value the filter chooses.
#[derive(Clone, Debug)]
pub struct Predicate {
    pub outcome_filter: OutcomeFilter,
    pub predicate_kind: PredicateKind,
}

/// The ids of the predicates of kind `kind` on `id`, one per value the filter chooses,
/// in order.
pub fn predicate_ids(kind: PredicateKind, filter: &OutcomeFilter, id: &EventId) -> (r: Vec<EventId>)
    requires
        predicate_applies(kind, *filter, *id),
    ensures
        r@.len() == spec_outcomes_for(*filter, id@).len(),
        forall|k: int|
            0 <= k < r@.len() ==> (#[trigger] r@[k])@ == spec_predicate_id(kind, id@, spec_outcomes_for(*filter, id@)[k]),
{
    let values = filter.outcomes_for(id);
    let mut out: Vec<EventId> = Vec::new();
    let mut i: usize = 0;
    proof {
        crate::event::lemma_fault_free_strips(id@);
    }
    while i < values.len()
        invariant
            i <= values@.len(),
            values@ == spec_outcomes_for(*filter, id@),
            predicate_applies(kind, *filter, *id),
            crate::path::spec_strip_event(id@) is Some,
            out@.len() == i,
            forall|k: int|
                0 <= k < i ==> (#[trigger] out@[k])@ == spec_predicate_id(kind, id@, values@[k]),
        decreases values.len() - i,
    {
        let v = values[i];
        assert(values@[i as int] == spec_outcomes_for(*filter, id@)[i as int]);
        let p = match kind {
            PredicateKind::Eq => id.predicate_eq(v),
            PredicateKind::Gt => id.replace_kind(EventKind::PriceAbove(v as u32)),
        };
        out.push(p);
        i = i + 1;
    }
    out
}

impl Predicate {
    /// The ids of the predicates on `id`, one per value the filter chooses, in order.
    pub fn apply_to_event_id(&self, id: &EventId) -> (r: Vec<EventId>)
        requires
            predicate_applies(self.predicate_kind, self.outcome_filter, *id),
        ensures
            r@.len() == spec_outcomes_for(self.outcome_filter, id@).len(),
            forall|k: int|
                0 <= k < r@.len() ==> (#[trigger] r@[k])@ == spec_predicate_id(
                    self.predicate_kind,
                    id@,
                    spec_outcomes_for(self.outcome_filter, id@)[k],
                ),
    {
        predicate_ids(self.predicate_kind, &self.outcome_filter, id)
    }
}

/// The events that follow from `event` under a predicate: the event, then, where the
/// predicate applies to it, one event per chosen value with the same expected outcome time.
pub open spec fn spec_derived_events(p: Predicate, event: Event) -> Seq<(Seq<char>, Option<Timestamp>)> {
    seq![(event.id@, event.expected_outcome_time)] + if predicate_applies(p.predicate_kind, p.outcome_filter, event.id) {
        spec_outcomes_for(p.outcome_filter, event.id@).map_values(
            |v: u64| (spec_predicate_id(p.predicate_kind, event.id@, v), event.expected_outcome_time),
        )
    } else {
        Seq::empty()
    }
}

/// Whether predicates of kind `kind` can be made on `id` for every value its filter chooses.
pub fn applies(kind: PredicateKind, filter: &OutcomeFilter, id: &EventId) -> (b: bool)
    requires
        id.wf(),
    ensures
        b == predicate_applies(kind, *filter, *id),
{
    let event_kind = id.event_kind();
    let (kind_ok, enum_ok) = match kind {
        PredicateKind::Eq => (
            match event_kind {
                EventKind::VsMatch(_) | EventKind::SingleOccurrence => true,
                _ => false,
            },
            true,
        ),
        PredicateKind::Gt => (
            match event_kind {
                EventKind::Price { .. } => true,
                _ => false,
            },
            match filter {
                OutcomeFilter::Indexes(_) => true,
                _ => false,
            },
        ),
    };
    if !kind_ok || !enum_ok {
        return false;
    }
    let values = filter.outcomes_for(id);
    let bound: u64 = match kind {
        PredicateKind::Eq => id.n_outcomes(),
        PredicateKind::Gt => 0x1_0000_0000u64,
    };
    let mut i: usize = 0;
    while i < values.len()
        invariant
            i <= values@.len(),
            values@ == spec_outcomes_for(*filter, id@),
            forall|k: int| 0 <= k < i ==> values@[k] < bound,
            id.wf(),
            kind is Eq ==> bound == spec_n_outcomes(spec_event_kind(id@))
                && (spec_event_kind(id@) is VsMatch || spec_event_kind(id@) is SingleOccurrence),
            kind is Gt ==> bound == 0x1_0000_0000u64 && spec_event_kind(id@) is Price
                && *filter is Indexes,
        decreases values.len() - i,
    {
        if values[i] >= bound {
            assert(spec_outcomes_for(*filter, id@)[i as int] >= bound);
            return false;
        }
        i = i + 1;
    }
    true
}

/// The event, followed by the predicate events of kind `kind` derived from it where
/// they apply, each expected at the same time as the event.
pub fn derived_events(kind: PredicateKind, filter: &OutcomeFilter, event: &Event) -> (r: Vec<Event>)
    requires
        event.id.wf(),
    ensures
        r@.len() == spec_derived_events(Predicate { outcome_filter: *filter, predicate_kind: kind }, *event).len(),
        forall|k: int|
            0 <= k < r@.len() ==> ((#[trigger] r@[k]).id@, r@[k].expected_outcome_time)
                == spec_derived_events(Predicate { outcome_filter: *filter, predicate_kind: kind }, *event)[k],
{
    let mut out: Vec<Event> = Vec::new();
    out.push(event.duplicate());
    if applies(kind, filter, &event.id) {
        let ids = predicate_ids(kind, filter, &event.id);
        let ghost values = spec_outcomes_for(*filter, event.id@);
        let mut i: usize = 0;
        while i < ids.len()
            invariant
                i <= ids@.len(),
                ids@.len() == values.len(),
                forall|k: int|
                    0 <= k < ids@.len() ==> (#[trigger] ids@[k])@ == spec_predicate_id(
                        kind,
                        event.id@,
                        values[k],
                    ),
                out@.len() == 1 + i,
                out@[0].id@ == event.id@,
                out@[0].expected_outcome_time == event.expected_outcome_time,
                forall|k: int|
                    1 <= k < out@.len() ==> (#[trigger] out@[k]).id@ == ids@[k - 1]@
                        && out@[k].expected_outcome_time == event.expected_outcome_time,
            decreases ids.len() - i,
        {
            out.push(Event { id: ids[i].duplicate(), expected_outcome_time: event.expected_outcome_time });
            i = i + 1;
        }
    }
    out
}

impl Predicate {
    /// Whether the predicate can be made on `id` for every value its filter chooses.
    pub fn applies_to(&self, id: &EventId) -> (b: bool)
        requires
            id.wf(),
        ensures
            b == predicate_applies(self.predicate_kind, self.outcome_filter, *id),
    {
        applies(self.predicate_kind, &self.outcome_filter, id)
    }

    /// The event, followed by the predicate events derived from it where the predicate
    /// applies, each expected at the same time as the event.
    pub fn derive_events(&self, event: &Event) -> (r: Vec<Event>)
        requires
            event.id.wf(),
        ensures
            r@.len() == spec_derived_events(*self, *event).len(),
            forall|k: int|
                0 <= k < r@.len() ==> ((#[trigger] r@[k]).id@, r@[k].expected_outcome_time)
                    == spec_derived_events(*self, *event)[k],
    {
        derived_events(self.predicate_kind, &self.outcome_filter, event)
    }
}

impl OutcomeFilter {
    /// The outcome values of `id` that the filter chooses.
    pub fn outcomes_for(&self, id: &EventId) -> (v: Vec<u64>)
        requires
            self is Pattern ==> id.wf_enum(),
        ensures
            v@ == spec_outcomes_for(*self, id@),
    {
        match self {
            OutcomeFilter::Pattern(Pattern::All) => {
                let n = id.n_outcomes();
                let mut v: Vec<u64> = Vec::new();
                let mut i: u64 = 0;
                while i < n
                    invariant
                        i <= n,
                        n == spec_n_outcomes(spec_event_kind(id@)),
                        v@ == Seq::new(i as nat, |j: int| j as u64),
                    decreases n - i,
                {
                    v.push(i);
                    i = i + 1;
                    assert(v@ =~= Seq::new(i as nat, |j: int| j as u64));
                }
                v
            },
            OutcomeFilter::Indexes(chosen) => {
                let mut v: Vec<u64> = Vec::new();
                let mut i: usize = 0;
                while i < chosen.len()
                    invariant
                        i <= chosen@.len(),
                        v@ == chosen@.take(i as int),
                    decreases chosen@.len() - i,
                {
                    v.push(chosen[i]);
                    i = i + 1;
                    assert(v@ =~= chosen@.take(i as int));
                }
                assert(chosen@.take(chosen@.len() as int) =~= chosen@);
                v
            },
        }
    }
}

} // verus!
