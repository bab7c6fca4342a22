//! Equality predicates alone: one event per chosen outcome, asking whether it came out.
use vstd::prelude::*;
use crate::config::PredicateKind;
use crate::event::EventId;
use crate::sources::{predicate_applies, predicate_ids, spec_outcomes_for, spec_predicate_id, OutcomeFilter};

verus! {

/// Derives, from an event, an equality predicate for each outcome the filter chooses.
#[derive(Clone, Debug)]
pub struct Eq {
    pub outcome_filter: OutcomeFilter,
}

impl Eq {
    /// The ids `<id>=<outcome>` of the chosen outcomes, in the filter's order.
    pub fn apply_to_event_id(&self, id: &EventId) -> (r: Vec<EventId>)
        requires
            predicate_applies(PredicateKind::Eq, self.outcome_filter, *id),
        ensures
            r@.len() == spec_outcomes_for(self.outcome_filter, id@).len(),
            forall|k: int|
                0 <= k < r@.len() ==> (#[trigger] r@[k])@ == spec_predicate_id(
                    PredicateKind::Eq,
                    id@,
                    spec_outcomes_for(self.outcome_filter, id@)[k],
                ),
    {
        predicate_ids(PredicateKind::Eq, &self.outcome_filter, id)
    }
}

} // verus!
