//! Completing the events that follow from an outcome: once a `vs` match has an
//! outcome, every predicate on it (`vs=<outcome>`) stored beside it has one too, and
//! once a price has one, so has every price event beside it.
use vstd::prelude::*;
use crate::db::in_memory::{matching, sorted_by_time};
use crate::db::prefixed::{prefixed_query, stripped, PrefixedDb};
use crate::db::{EventQuery, Order};
use crate::event::{
    is_enum_kind, spec_event_kind, spec_event_path, spec_id_fault, spec_join_event, spec_kind_outcome_names,
    spec_n_outcomes, Event, EventId,
    EventKind, Predicated, VsMatchKind,
};
use crate::config::PredicateKind;
use crate::outcome::{spec_outcome_string, Outcome};
use crate::sources::spec_predicate_id;
use crate::text::str_eq;

verus! {

/// The outcome that the outcome `o` gives the event `id`: for a predicate on a `vs`
/// match of `o`'s kind, `true` (1) when the outcome it names is `o`'s, `false` (0)
/// otherwise; when `o` is a price, the same price for a price event, and for a bound
/// on it whether the price exceeds the bound.  `None` for other ids.
pub open spec fn spec_related_value(o: Outcome, id: Seq<char>) -> Option<u64> {
    let kind = spec_event_kind(id);
    if spec_id_fault(id) is None && kind is Equals && kind->Equals_0 is VsMatch && spec_event_kind(o.id@)
        == EventKind::VsMatch(kind->Equals_0->VsMatch_0) {
        let named = spec_outcome_string(
            spec_join_event(spec_event_path(id), EventKind::VsMatch(kind->Equals_0->VsMatch_0)),
            kind->Equals_1 as u64,
        );
        Some(
            if named == spec_outcome_string(o.id@, o.value) {
                1u64
            } else {
                0u64
            },
        )
    } else if spec_id_fault(id) is None && kind is Price && spec_event_kind(o.id@) is Price {
        Some(o.value)
    } else if spec_id_fault(id) is None && kind is PriceAbove && spec_event_kind(o.id@) is Price {
        Some(
            if o.value > kind->PriceAbove_0 {
                1u64
            } else {
                0u64
            },
        )
    } else {
        None
    }
}

/// The outcomes, as ids and values, that `o` gives the events in `v`, in their order.
pub open spec fn spec_related_outcomes(o: Outcome, v: Seq<Event>) -> Seq<(Seq<char>, u64)>
    decreases v.len(),
{
    if v.len() == 0 {
        Seq::empty()
    } else {
        let rest = spec_related_outcomes(o, v.drop_last());
        match spec_related_value(o, v.last().id@) {
            Some(value) => rest.push((v.last().id@, value)),
            None => rest,
        }
    }
}

/// An event of a kind with a known number of outcomes, fewer than three.
pub open spec fn few_outcomes(id: Seq<char>) -> bool {
    is_enum_kind(spec_event_kind(id)) && spec_n_outcomes(spec_event_kind(id)) < 3
}

/// The outcome that an outcome of a match gives an equality predicate on it is the
/// predicate's own outcome (`Outcome::predicate_eq`): `true` exactly when the predicate
/// names the match's outcome.
pub proof fn lemma_related_value_of_predicate(o: Outcome, v: u64)
    requires
        spec_id_fault(o.id@) is None,
        spec_event_kind(o.id@) is VsMatch,
        o.value < spec_n_outcomes(spec_event_kind(o.id@)),
        v < spec_n_outcomes(spec_event_kind(o.id@)),
    ensures
        spec_related_value(o, o.id@ + seq!['='] + spec_outcome_string(o.id@, v)) == Some(
            if v == o.value {
                1u64
            } else {
                0u64
            },
        ),
{
    let id = o.id@;
    let path = spec_event_path(id);
    let k = spec_event_kind(id);
    let names = spec_kind_outcome_names(path, k);
    assert(spec_outcome_string(id, v) == names[v as int]);
    assert(spec_outcome_string(id, o.value) == names[o.value as int]);
    crate::event::lemma_predicate_id_parses(id, v, names[v as int]);
    crate::event::lemma_vs_names_plain(id);
    crate::event::lemma_fault_free_strips(id);
    crate::event::lemma_event_path_plain(id);
    crate::event::lemma_join_event(path, k);
    let p = id + seq!['='] + spec_outcome_string(id, v);
    assert(spec_event_kind(p)->Equals_1 as u64 == v);
    if v != o.value {
        if v < o.value {
            assert(names[v as int] != names[o.value as int]);
        } else {
            assert(names[o.value as int] != names[v as int]);
        }
    }
}

/// The outcome that a price gives a bound that a `Gt` predicate derives from it: `true`
/// exactly when the price exceeds the bound.
pub proof fn lemma_related_value_of_bound(o: Outcome, b: u64)
    requires
        spec_id_fault(o.id@) is None,
        spec_event_kind(o.id@) is Price,
        b < 0x1_0000_0000,
    ensures
        spec_related_value(o, spec_predicate_id(PredicateKind::Gt, o.id@, b)) == Some(
            if o.value > b {
                1u64
            } else {
                0u64
            },
        ),
{
    let id = o.id@;
    let k = EventKind::PriceAbove(b as u32);
    crate::event::lemma_fault_free_strips(id);
    crate::event::lemma_event_path_plain(id);
    crate::event::lemma_join_event(spec_event_path(id), k);
    crate::event::lemma_join_valid(id, k);
}

/// Outcomes as ids and values.
pub open spec fn outcome_pairs(v: Seq<Outcome>) -> Seq<(Seq<char>, u64)> {
    v.map_values(|o: Outcome| (o.id@, o.value))
}

/// The outcomes that `outcome` gives the predicates among `related`.
pub fn related_outcomes(outcome: &Outcome, related: &Vec<Event>) -> (r: Vec<Outcome>)
    requires
        outcome.id.wf(),
        outcome.id.wf_enum() ==> outcome.value < spec_n_outcomes(spec_event_kind(outcome.id@)),
    ensures
        outcome_pairs(r@) == spec_related_outcomes(*outcome, related@),
{
    let own_kind = outcome.id.event_kind();
    let own_is_price = match own_kind {
        EventKind::Price { .. } => true,
        _ => false,
    };
    let own_name = match own_kind {
        EventKind::VsMatch(_) => outcome.outcome_string(),
        _ => String::new(),
    };
    let mut out: Vec<Outcome> = Vec::new();
    let mut i: usize = 0;
    while i < related.len()
        invariant
            i <= related@.len(),
            outcome.id.wf(),
            own_kind is VsMatch ==> own_name@ == spec_outcome_string(outcome.id@, outcome.value),
            own_kind == spec_event_kind(outcome.id@),
            own_is_price == own_kind is Price,
            outcome_pairs(out@) == spec_related_outcomes(*outcome, related@.take(i as int)),
        decreases related.len() - i,
    {
        assert(related@.take(i as int + 1).drop_last() =~= related@.take(i as int));
        assert(related@.take(i as int + 1).last() == related@[i as int]);
        let ghost before = out@;
        if let Ok(id) = EventId::from_str(related[i].id.as_str()) {
            proof {
                crate::event::lemma_fault_free_kind_parses(id@);
            }
            if let EventKind::Equals(Predicated::VsMatch(k), index) = id.event_kind() {
                if own_kind == EventKind::VsMatch(k) {
                    proof {
                        crate::event::lemma_predicate_inner(id@);
                    }
                    let inner = id.replace_kind(EventKind::VsMatch(k));
                    let named = Outcome { id: inner, value: index as u64 }.outcome_string();
                    let value: u64 = if str_eq(named.as_str(), own_name.as_str()) {
                        1
                    } else {
                        0
                    };
                    out.push(Outcome { id, value });
                    assert(outcome_pairs(out@) =~= outcome_pairs(before).push((related@[i as int].id@, value)));
                }
            } else if let EventKind::Price { .. } = id.event_kind() {
                if own_is_price {
                    out.push(Outcome { id, value: outcome.value });
                    assert(outcome_pairs(out@) =~= outcome_pairs(before).push((related@[i as int].id@, outcome.value)));
                }
            } else if let EventKind::PriceAbove(bound) = id.event_kind() {
                if own_is_price {
                    let value: u64 = if outcome.value > bound as u64 {
                        1
                    } else {
                        0
                    };
                    out.push(Outcome { id, value });
                    assert(outcome_pairs(out@) =~= outcome_pairs(before).push((related@[i as int].id@, value)));
                }
            }
        }
        i = i + 1;
    }
    assert(related@.take(related@.len() as int) =~= related@);
    out
}

/// Completes the events related to an outcome among those stored under the outcome's
/// path in a prefixed store.
pub struct CompleteRelated<'a> {
    pub db: PrefixedDb<'a>,
}

impl<'a> CompleteRelated<'a> {
    /// The outcomes that `outcome` gives the events stored under its path (in the
    /// prefixed store, earliest first): the predicates on a `vs` match, and the price
    /// events beside a price.  An outcome of an event with fewer than three outcomes is
    /// depended on by nothing; for it there are none.
    pub fn complete_related(&self, outcome: &Outcome) -> (r: Vec<Outcome>)
        requires
            self.db.store().wf(),
            outcome.id.wf(),
            outcome.id.wf_enum() ==> outcome.value < spec_n_outcomes(spec_event_kind(outcome.id@)),
        ensures
            few_outcomes(outcome.id@) ==> r@.len() == 0,
            !few_outcomes(outcome.id@) ==> exists|v: Seq<Event>, found: Seq<Event>| {
                &&& v.to_multiset() == matching(
                    self.db.store().events(),
                    prefixed_query(
                        (Some(spec_event_path(outcome.id@)), None, Order::Earliest, crate::path::root_chars(), None),
                        self.db.prefix(),
                    ),
                ).to_multiset()
                &&& sorted_by_time(v, Order::Earliest)
                &&& stripped(v, self.db.prefix(), found)
                &&& outcome_pairs(r@) == spec_related_outcomes(*outcome, found)
            },
    {
        let enumerated = match outcome.id.event_kind() {
            EventKind::Digits(_) | EventKind::Price { .. } => false,
            _ => true,
        };
        if enumerated && outcome.id.n_outcomes() < 3 {
            return Vec::new();
        }
        proof {
            crate::event::lemma_fault_free_kind_parses(outcome.id@);
        }
        let mut query = EventQuery::default();
        query.path = Some(outcome.id.path());
        let related = self.db.query_events(query);
        related_outcomes(outcome, &related)
    }
}

} // verus!
