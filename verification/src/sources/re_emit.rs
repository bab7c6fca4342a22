//! Events and outcomes that follow from others: the `win` event of every `vs` event,
//! and a heads-or-tails event for every `occur` event.
use vstd::prelude::*;
use vstd::utf8::encode_utf8;
use crate::event::{
    spec_event_kind, spec_event_path, spec_join_event, Event, EventId, EventKind, VsMatchKind,
};
use crate::outcome::{Outcome, StampedOutcome};
use crate::path::{spec_prefix_path, Path, PrefixPath};
use crate::seed::{blake2b_keyed_64, Seed};
use crate::text::string_of;

verus! {

/// Emits the events that follow from an event, the event itself among them or not.
pub trait EventReEmitter {
    fn re_emit_event(&self, event: Event) -> (v: Vec<Event>)
        requires
            event.id.wf(),
    ;
}

/// Emits the outcomes that follow from an outcome, the outcome itself among them or not.
pub trait OutcomeReEmitter {
    fn re_emit_outcome(&self, stamped: StampedOutcome) -> (v: Vec<StampedOutcome>)
        requires
            stamped.outcome.id.wf(),
    ;
}

/// For a `vs` match, also the `win` event: whether the left party wins.
pub struct Vs;

/// The `win` value that follows from a `vs` value: a win passes through, a draw is
/// the left party not winning.
pub open spec fn spec_vs_to_win(v: u64) -> u64 {
    if v < 2 {
        v
    } else {
        1
    }
}

impl EventReEmitter for Vs {
    fn re_emit_event(&self, event: Event) -> (v: Vec<Event>)
        ensures
            spec_event_kind(event.id@) == EventKind::VsMatch(VsMatchKind::WinOrDraw) ==> v@.len()
                == 2 && v@[0].id@ == spec_join_event(
                spec_event_path(event.id@),
                EventKind::VsMatch(VsMatchKind::Win),
            ) && v@[0].expected_outcome_time == event.expected_outcome_time && v@[1] == event,
            spec_event_kind(event.id@) != EventKind::VsMatch(VsMatchKind::WinOrDraw) ==> v@
                == seq![event],
    {
        let mut re_emit: Vec<Event> = Vec::new();
        if let EventKind::VsMatch(VsMatchKind::WinOrDraw) = event.id.event_kind() {
            proof {
                crate::event::lemma_fault_free_kind_parses(event.id@);
            }
            re_emit.push(
                Event {
                    id: event.id.replace_kind(EventKind::VsMatch(VsMatchKind::Win)),
                    expected_outcome_time: event.expected_outcome_time,
                },
            );
        }
        re_emit.push(event);
        re_emit
    }
}

impl OutcomeReEmitter for Vs {
    fn re_emit_outcome(&self, stamped: StampedOutcome) -> (v: Vec<StampedOutcome>)
        ensures
            spec_event_kind(stamped.outcome.id@) == EventKind::VsMatch(VsMatchKind::WinOrDraw)
                ==> v@.len() == 2 && v@[0].outcome.id@ == spec_join_event(
                spec_event_path(stamped.outcome.id@),
                EventKind::VsMatch(VsMatchKind::Win),
            ) && v@[0].outcome.value == spec_vs_to_win(stamped.outcome.value) && v@[0].time
                == stamped.time && v@[1] == stamped,
            spec_event_kind(stamped.outcome.id@) != EventKind::VsMatch(VsMatchKind::WinOrDraw)
                ==> v@ == seq![stamped],
    {
        let mut re_emit: Vec<StampedOutcome> = Vec::new();
        if let EventKind::VsMatch(VsMatchKind::WinOrDraw) = stamped.outcome.id.event_kind() {
            proof {
                crate::event::lemma_fault_free_kind_parses(stamped.outcome.id@);
            }
            let new_outcome = if stamped.outcome.value < 2 {
                stamped.outcome.value
            } else {
                1
            };
            re_emit.push(
                StampedOutcome {
                    time: stamped.time,
                    outcome: Outcome {
                        id: stamped.outcome.id.replace_kind(EventKind::VsMatch(VsMatchKind::Win)),
                        value: new_outcome,
                    },
                },
            );
        }
        re_emit.push(stamped);
        re_emit
    }
}

/// The heads-or-tails event of an event: `heads_tails` under its path, a `win` event.
pub open spec fn spec_heads_tails_id(id: Seq<char>) -> Seq<char> {
    spec_join_event(
        spec_prefix_path("/heads_tails"@, spec_event_path(id)),
        EventKind::VsMatch(VsMatchKind::Win),
    )
}

/// The heads-or-tails event of an event.
pub fn event_to_heads_tails(id: &EventId) -> (r: EventId)
    requires
        id.wf(),
    ensures
        r@ == spec_heads_tails_id(id@),
{
    proof {
        crate::event::lemma_fault_free_kind_parses(id@);
    }
    let leaf = Path::from_string_unchecked(string_of("/heads_tails"));
    let path = leaf.prefix_path(id.path());
    EventId::from_path_and_kind(path, EventKind::VsMatch(VsMatchKind::Win))
}

/// For every `occur` event, a heads-or-tails event (and nothing else).
pub struct HeadsOrTailsEvents;

/// For every `occur` outcome, the outcome of its heads-or-tails event (and nothing else).
pub struct HeadsOrTailsOutcomes {
    pub seed: Seed,
}

impl EventReEmitter for HeadsOrTailsEvents {
    fn re_emit_event(&self, event: Event) -> (v: Vec<Event>)
        ensures
            spec_event_kind(event.id@) == EventKind::SingleOccurrence ==> v@.len() == 1 && v@[0].id@
                == spec_heads_tails_id(event.id@) && v@[0].expected_outcome_time
                == event.expected_outcome_time,
            spec_event_kind(event.id@) != EventKind::SingleOccurrence ==> v@.len() == 0,
    {
        let mut v: Vec<Event> = Vec::new();
        if let EventKind::SingleOccurrence = event.id.event_kind() {
            v.push(
                Event {
                    id: event_to_heads_tails(&event.id),
                    expected_outcome_time: event.expected_outcome_time,
                },
            );
        }
        v
    }
}

/// The heads-or-tails value: the lowest bit of the first byte of the seed's child for
/// the heads-or-tails event.
pub open spec fn spec_heads_tails_value(seed: Seq<u8>, id: Seq<char>) -> u64 {
    (blake2b_keyed_64(seed, encode_utf8(spec_heads_tails_id(id)))[0] & 1u8) as u64
}

impl OutcomeReEmitter for HeadsOrTailsOutcomes {
    fn re_emit_outcome(&self, stamped: StampedOutcome) -> (v: Vec<StampedOutcome>)
        ensures
            spec_event_kind(stamped.outcome.id@) == EventKind::SingleOccurrence ==> v@.len() == 1
                && v@[0].outcome.id@ == spec_heads_tails_id(stamped.outcome.id@)
                && v@[0].outcome.value == spec_heads_tails_value(self.seed@, stamped.outcome.id@)
                && v@[0].time == stamped.time,
            spec_event_kind(stamped.outcome.id@) != EventKind::SingleOccurrence ==> v@.len() == 0,
    {
        let mut v: Vec<StampedOutcome> = Vec::new();
        if let EventKind::SingleOccurrence = stamped.outcome.id.event_kind() {
            let event_id = event_to_heads_tails(&stamped.outcome.id);
            let event_randomness = self.seed.child(event_id.as_bytes());
            let value = (event_randomness.as_ref()[0] & 1u8) as u64;
            v.push(StampedOutcome { outcome: Outcome { id: event_id, value }, time: stamped.time });
        }
        v
    }
}

} // verus!
