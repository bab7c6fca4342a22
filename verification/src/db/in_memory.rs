//! A store held in memory.
use vstd::prelude::*;
use crate::announcement::AnnouncedEvent;
use crate::attestation::Attestation;
use crate::db::{in_order, query_matches, time_le, time_less, EventQuery, Order, QueryView};
use crate::event::lemma_fault_free_kind_parses;
use crate::time::Timestamp;
use vstd::seq_lib::{to_multiset_build, to_multiset_insert};
use crate::event::{Event, EventId};
use crate::node::{Child, ChildDesc, GetPath, Node, NodeKind};
use crate::db::date_map::{add_date_entry, date_entry, date_map_of, dates_view, dates_wf, has_pair, lemma_lists_date_step, lists_date, Date};
use crate::time::date_from_str;
use crate::event::{spec_event_kind, spec_event_path, EventKind};
use crate::path::{root_chars, spec_is_parent_of, spec_prefix_path, spec_segments, spec_strip_prefix_path, PathRef, PrefixPath};
use crate::text::{chars_lt, chars_of, lemma_chars_lt_total, lemma_chars_lt_transitive, starts_with, str_lt};
use crate::oracle_info::OracleKeys;
use crate::path::Path;
use crate::text::{push_str, str_ends_with, str_eq, str_starts_with, string_of};

verus! {

/// The events of `s` that answer the query, in the order they are stored.
pub open spec fn matching(s: Seq<AnnouncedEvent>, q: QueryView) -> Seq<Event>
    decreases s.len(),
{
    if s.len() == 0 {
        seq![]
    } else {
        let rest = matching(s.drop_last(), q);
        if query_matches(q, s.last()) {
            rest.push(s.last().event)
        } else {
            rest
        }
    }
}

/// Events sorted in the query's order.
pub open spec fn sorted_by_time(s: Seq<Event>, order: Order) -> bool {
    forall|i: int, j: int|
        0 <= i < j < s.len() ==> in_order(order, #[trigger] s[i].expected_outcome_time, #[trigger] s[j].expected_outcome_time)
}

/// Where the event with the id is stored.
pub open spec fn index_of(s: Seq<AnnouncedEvent>, id: Seq<char>) -> Option<int> {
    if exists|i: int| 0 <= i < s.len() && (#[trigger] s[i]).event.id@ == id {
        Some(choose|i: int| 0 <= i < s.len() && (#[trigger] s[i]).event.id@ == id)
    } else {
        None
    }
}

/// Where the kind of the path is stored.
pub open spec fn node_index_of(s: Seq<(Path, NodeKind)>, path: Seq<char>) -> Option<int> {
    if exists|i: int| 0 <= i < s.len() && (#[trigger] s[i]).0@ == path {
        Some(choose|i: int| 0 <= i < s.len() && (#[trigger] s[i]).0@ == path)
    } else {
        None
    }
}

/// One event per id, each id well formed.
pub open spec fn events_wf(s: Seq<AnnouncedEvent>) -> bool {
    &&& forall|i: int, j: int|
        0 <= i < j < s.len() ==> (#[trigger] s[i]).event.id@ != (#[trigger] s[j]).event.id@
    &&& forall|i: int| 0 <= i < s.len() ==> (#[trigger] s[i]).event.id.wf()
}

/// One kind per path.
pub open spec fn kinds_wf(s: Seq<(Path, NodeKind)>) -> bool {
    forall|i: int, j: int| 0 <= i < j < s.len() ==> (#[trigger] s[i]).0@ != (#[trigger] s[j]).0@
}

/// A store in memory: the oracle's public keys, its announced events (one per id) and
/// the kinds set for paths (one per path).
pub struct InMemory {
    public_keys: Option<OracleKeys>,
    events: Vec<AnnouncedEvent>,
    node_kinds: Vec<(Path, NodeKind)>,
}

impl InMemory {
    /// The stored events.
    pub closed spec fn events(&self) -> Seq<AnnouncedEvent> {
        self.events@
    }

    /// The stored node kinds.
    pub closed spec fn node_kinds(&self) -> Seq<(Path, NodeKind)> {
        self.node_kinds@
    }

    /// The stored public keys.
    pub closed spec fn public_keys(&self) -> Option<OracleKeys> {
        self.public_keys
    }

    /// One event per id, each id well formed; one kind per path.
    pub open spec fn wf(&self) -> bool {
        &&& events_wf(self.events())
        &&& kinds_wf(self.node_kinds())
    }

    /// The stored event with the id.
    pub open spec fn event_for(&self, id: Seq<char>) -> Option<AnnouncedEvent> {
        match index_of(self.events(), id) {
            Some(i) => Some(self.events()[i]),
            None => None,
        }
    }

    /// The kind set for the path.
    pub open spec fn kind_for(&self, path: Seq<char>) -> Option<NodeKind> {
        match node_index_of(self.node_kinds(), path) {
            Some(i) => Some(self.node_kinds()[i].1),
            None => None,
        }
    }

    /// An empty store.
    pub fn new() -> (db: Self)
        ensures
            db.wf(),
            db.events() == Seq::<AnnouncedEvent>::empty(),
            db.node_kinds() == Seq::<(Path, NodeKind)>::empty(),
            db.public_keys() is None,
    {
        InMemory { public_keys: None, events: Vec::new(), node_kinds: Vec::new() }
    }

    /// Where the event with the id is stored.
    fn position(&self, id: &EventId) -> (r: Option<usize>)
        requires
            self.wf(),
        ensures
            match r {
                Some(i) => i < self.events().len() && index_of(self.events(), id@) == Some(i as int),
                None => index_of(self.events(), id@) is None,
            },
    {
        let mut i: usize = 0;
        while i < self.events.len()
            invariant
                self.wf(),
                i <= self.events@.len(),
                forall|j: int| 0 <= j < i ==> (#[trigger] self.events@[j]).event.id@ != id@,
            decreases self.events.len() - i,
        {
            if str_eq(self.events[i].event.id.as_str(), id.as_str()) {
                let ghost k = choose|k: int| 0 <= k < self.events@.len() && (#[trigger] self.events@[k]).event.id@ == id@;
                assert(self.events@[i as int].event.id@ == id@);
                assert(k == i) by {
                    if k != i {
                        if k < i {
                            assert(self.events@[k].event.id@ != self.events@[i as int].event.id@);
                        } else {
                            assert(self.events@[i as int].event.id@ != self.events@[k].event.id@);
                        }
                    }
                }
                return Some(i);
            }
            i = i + 1;
        }
        None
    }

    /// Where the kind of the path is stored.
    fn node_position(&self, path: &Path) -> (r: Option<usize>)
        requires
            self.wf(),
        ensures
            match r {
                Some(i) => i < self.node_kinds().len() && node_index_of(self.node_kinds(), path@) == Some(i as int),
                None => node_index_of(self.node_kinds(), path@) is None,
            },
    {
        let mut i: usize = 0;
        while i < self.node_kinds.len()
            invariant
                self.wf(),
                i <= self.node_kinds@.len(),
                forall|j: int| 0 <= j < i ==> (#[trigger] self.node_kinds@[j]).0@ != path@,
            decreases self.node_kinds.len() - i,
        {
            if str_eq(self.node_kinds[i].0.as_str(), path.as_str()) {
                let ghost k = choose|k: int| 0 <= k < self.node_kinds@.len() && (#[trigger] self.node_kinds@[k]).0@ == path@;
                assert(self.node_kinds@[i as int].0@ == path@);
                assert(k == i) by {
                    if k != i {
                        if k < i {
                            assert(self.node_kinds@[k].0@ != self.node_kinds@[i as int].0@);
                        } else {
                            assert(self.node_kinds@[i as int].0@ != self.node_kinds@[k].0@);
                        }
                    }
                }
                return Some(i);
            }
            i = i + 1;
        }
        None
    }

    /// The stored event with the id, copied.
    pub fn get_announced_event(&self, id: &EventId) -> (r: Option<AnnouncedEvent>)
        requires
            self.wf(),
        ensures
            match self.event_for(id@) {
                Some(e) => r matches Some(x) && x@ == e@,
                None => r is None,
            },
    {
        match self.position(id) {
            Some(i) => Some(self.events[i].duplicate()),
            None => None,
        }
    }

    /// The stored public keys.
    pub fn get_public_keys(&self) -> (r: Option<OracleKeys>)
        ensures
            r == self.public_keys(),
    {
        self.public_keys
    }

    /// Stores the public keys.
    pub fn set_public_keys(&mut self, public_keys: OracleKeys)
        ensures
            final(self).public_keys() == Some(public_keys),
            final(self).events() == old(self).events(),
            final(self).node_kinds() == old(self).node_kinds(),
    {
        self.public_keys = Some(public_keys);
    }

    /// Stores a new event; an event with the same id is an error, and the store is left
    /// as it was.
    pub fn insert_event(&mut self, observed_event: AnnouncedEvent) -> (r: Result<(), String>)
        requires
            old(self).wf(),
            observed_event.event.id.wf(),
        ensures
            final(self).wf(),
            final(self).public_keys() == old(self).public_keys(),
            final(self).node_kinds() == old(self).node_kinds(),
            match old(self).event_for(observed_event.event.id@) {
                Some(_) => r matches Err(m) && m@ == observed_event.event.id@ + " already exists"@
                    && final(self).events() == old(self).events(),
                None => r is Ok && final(self).events() == old(self).events().push(observed_event),
            },
            r is Ok ==> final(self).event_for(observed_event.event.id@) == Some(observed_event),
            forall|id: Seq<char>|
                id != observed_event.event.id@ ==> #[trigger] final(self).event_for(id) == old(self).event_for(id),
    {
        match self.position(&observed_event.event.id) {
            Some(_) => {
                let mut m = string_of(observed_event.event.id.as_str());
                push_str(&mut m, " already exists");
                Err(m)
            },
            None => {
                let ghost old_events = self.events@;
                let ghost old_kinds = self.node_kinds@;
                let ghost id = observed_event.event.id@;
                self.events.push(observed_event);
                proof {
                    assert(self.node_kinds@ == old_kinds);
                    let n = old_events.len() as int;
                    assert(self.events@[n].event.id@ == id);
                    assert forall|i: int, j: int|
                        0 <= i < j < self.events@.len() implies (#[trigger] self.events@[i]).event.id@
                            != (#[trigger] self.events@[j]).event.id@ by {
                        if j == n {
                            assert(old_events[i].event.id@ != id);
                        } else {
                            assert(old_events[i].event.id@ != old_events[j].event.id@);
                        }
                    }
                    assert forall|i: int| 0 <= i < self.events@.len() implies (#[trigger] self.events@[i]).event.id.wf() by {
                        if i < n {
                            assert(old_events[i] == self.events@[i]);
                        }
                    }
                    assert(index_of(self.events@, id) == Some(n)) by {
                        let k = choose|k: int| 0 <= k < self.events@.len() && (#[trigger] self.events@[k]).event.id@ == id;
                        if k != n {
                            assert(self.events@[k].event.id@ != self.events@[n].event.id@);
                        }
                    }
                    assert forall|other: Seq<char>| other != id implies #[trigger] self.event_for(other)
                        == old_events_for(old_events, other) by {
                        if exists|i: int| 0 <= i < old_events.len() && (#[trigger] old_events[i]).event.id@ == other {
                            assert(self.events@[index_of(old_events, other).unwrap()] == old_events[index_of(old_events, other).unwrap()]);
                            let k = choose|k: int| 0 <= k < self.events@.len() && (#[trigger] self.events@[k]).event.id@ == other;
                            let k0 = index_of(old_events, other).unwrap();
                            assert(self.events@[k0].event.id@ == other);
                            if k != k0 {
                                if k < k0 {
                                    assert(self.events@[k].event.id@ != self.events@[k0].event.id@);
                                } else {
                                    assert(self.events@[k0].event.id@ != self.events@[k].event.id@);
                                }
                            }
                        } else {
                            assert forall|i: int| 0 <= i < self.events@.len() implies (#[trigger] self.events@[i]).event.id@ != other by {
                                if i < n {
                                    assert(old_events[i] == self.events@[i]);
                                }
                            }
                        }
                    }
                }
                Ok(())
            },
        }
    }

    /// Attests to a stored event; an event that is not stored, or is already attested
    /// to, is an error, and the store is left as it was.
    pub fn complete_event(&mut self, event_id: &EventId, attestation: Attestation) -> (r: Result<(), String>)
        requires
            old(self).wf(),
        ensures
            final(self).wf(),
            final(self).public_keys() == old(self).public_keys(),
            final(self).node_kinds() == old(self).node_kinds(),
            match index_of(old(self).events(), event_id@) {
                None => r matches Err(m) && m@ == "Cannot complete event that does not exist"@
                    && final(self).events() == old(self).events(),
                Some(i) => if old(self).events()[i].attestation is Some {
                    r matches Err(m) && m@ == "This event has already been attested to"@
                        && final(self).events() == old(self).events()
                } else {
                    r is Ok && final(self).events() == old(self).events().update(
                        i,
                        AnnouncedEvent {
                            event: old(self).events()[i].event,
                            announcement: old(self).events()[i].announcement,
                            attestation: Some(attestation),
                        },
                    )
                },
            },
            r is Ok ==> (final(self).event_for(event_id@) matches Some(e) && e.event == old(
                self,
            ).event_for(event_id@).unwrap().event && e.announcement == old(self).event_for(
                event_id@,
            ).unwrap().announcement && e.attestation == Some(attestation)),
            forall|id: Seq<char>| id != event_id@ ==> #[trigger] final(self).event_for(id) == old(self).event_for(id),
    {
        match self.position(event_id) {
            None => Err(string_of("Cannot complete event that does not exist")),
            Some(i) => {
                if self.events[i].attestation.is_some() {
                    return Err(string_of("This event has already been attested to"));
                }
                let ghost old_events = self.events@;
                let ghost old_kinds = self.node_kinds@;
                let mut e = self.events.remove(i);
                e.attestation = Some(attestation);
                self.events.insert(i, e);
                proof {
                    assert(self.node_kinds@ == old_kinds);
                    assert(self.events@ =~= old_events.update(i as int, self.events@[i as int]));
                    assert forall|a: int| 0 <= a < self.events@.len() implies (#[trigger] self.events@[a]).event
                        == old_events[a].event by {}
                    assert forall|other: Seq<char>| #[trigger] self.event_for(other) == match index_of(old_events, other) {
                        Some(k) => Some(self.events@[k]),
                        None => None,
                    } by {
                        assert forall|a: int| 0 <= a < self.events@.len() implies ((#[trigger] self.events@[a]).event.id@ == other <==> old_events[a].event.id@ == other) by {}
                        if exists|a: int| 0 <= a < old_events.len() && (#[trigger] old_events[a]).event.id@ == other {
                            let k0 = index_of(old_events, other).unwrap();
                            assert(self.events@[k0].event.id@ == other);
                        }
                    }
                }
                Ok(())
            },
        }
    }

    /// Sets the kind of a path, replacing the kind set before.
    pub fn set_node(&mut self, node: Node)
        requires
            old(self).wf(),
        ensures
            final(self).wf(),
            final(self).events() == old(self).events(),
            final(self).public_keys() == old(self).public_keys(),
            final(self).kind_for(node.path@) == Some(node.kind),
            forall|p: Seq<char>| p != node.path@ ==> #[trigger] final(self).kind_for(p) == old(self).kind_for(p),
    {
        let ghost old_kinds = self.node_kinds@;
        let ghost path = node.path@;
        match self.node_position(&node.path) {
            Some(i) => {
                let (p, _) = self.node_kinds.remove(i);
                self.node_kinds.insert(i, (p, node.kind));
                proof {
                    assert(self.node_kinds@ =~= old_kinds.update(i as int, (old_kinds[i as int].0, node.kind)));
                    assert forall|a: int| 0 <= a < self.node_kinds@.len() implies (#[trigger] self.node_kinds@[a]).0@
                        == old_kinds[a].0@ by {}
                    assert forall|other: Seq<char>| #[trigger] self.kind_for(other) == (if other == path {
                        Some(node.kind)
                    } else {
                        old_kinds_for(old_kinds, other)
                    }) by {
                        assert forall|a: int| 0 <= a < self.node_kinds@.len() implies ((#[trigger] self.node_kinds@[a]).0@ == other <==> old_kinds[a].0@ == other) by {}
                        if exists|a: int| 0 <= a < old_kinds.len() && (#[trigger] old_kinds[a]).0@ == other {
                            let k0 = node_index_of(old_kinds, other).unwrap();
                            assert(self.node_kinds@[k0].0@ == other);
                        }
                    }
                }
            },
            None => {
                self.node_kinds.push((node.path, node.kind));
                proof {
                    let n = old_kinds.len() as int;
                    assert(self.node_kinds@[n].0@ == path);
                    assert forall|i: int, j: int|
                        0 <= i < j < self.node_kinds@.len() implies (#[trigger] self.node_kinds@[i]).0@
                            != (#[trigger] self.node_kinds@[j]).0@ by {
                        if j == n {
                            assert(old_kinds[i].0@ != path);
                        } else {
                            assert(old_kinds[i].0@ != old_kinds[j].0@);
                        }
                    }
                    assert(node_index_of(self.node_kinds@, path) == Some(n)) by {
                        let k = choose|k: int| 0 <= k < self.node_kinds@.len() && (#[trigger] self.node_kinds@[k]).0@ == path;
                        if k != n {
                            assert(self.node_kinds@[k].0@ != self.node_kinds@[n].0@);
                        }
                    }
                    assert forall|other: Seq<char>| other != path implies #[trigger] self.kind_for(other)
                        == old_kinds_for(old_kinds, other) by {
                        if exists|i: int| 0 <= i < old_kinds.len() && (#[trigger] old_kinds[i]).0@ == other {
                            let k0 = node_index_of(old_kinds, other).unwrap();
                            assert(self.node_kinds@[k0] == old_kinds[k0]);
                            let k = choose|k: int| 0 <= k < self.node_kinds@.len() && (#[trigger] self.node_kinds@[k]).0@ == other;
                            if k != k0 {
                                if k < k0 {
                                    assert(self.node_kinds@[k].0@ != self.node_kinds@[k0].0@);
                                } else {
                                    assert(self.node_kinds@[k0].0@ != self.node_kinds@[k].0@);
                                }
                            }
                        } else {
                            assert forall|i: int| 0 <= i < self.node_kinds@.len() implies (#[trigger] self.node_kinds@[i]).0@ != other by {
                                if i < n {
                                    assert(old_kinds[i] == self.node_kinds@[i]);
                                }
                            }
                        }
                    }
                }
            },
        }
    }
}

/// Whether the stored event answers the query.
fn answers(q: &EventQuery<'_, '_>, e: &AnnouncedEvent) -> (r: bool)
    requires
        e.event.id.wf(),
    ensures
        r == query_matches(q@, *e),
{
    proof {
        lemma_fault_free_kind_parses(e.event.id@);
    }
    let path_id = e.event.id.path();
    let path_ok = match q.path {
        Some(p) => str_starts_with(path_id.as_str(), p.as_str()),
        None => true,
    };
    let ends_ok = q.ends_with.is_root() || str_ends_with(path_id.as_str(), q.ends_with.as_str());
    let kind_ok = match q.kind {
        Some(k) => e.event.id.event_kind() == k,
        None => true,
    };
    let attested_ok = match q.attested {
        Some(a) => a == e.attestation.is_some(),
        None => true,
    };
    path_ok && ends_ok && kind_ok && attested_ok
}

/// `a` has to come before `b` in the order.
pub open spec fn must_precede(order: Order, a: Option<Timestamp>, b: Option<Timestamp>) -> bool {
    !in_order(order, b, a)
}

/// Where an event of time `t` goes in a sorted list: before the first event that has
/// to come after it.
fn insert_position(out: &Vec<Event>, t: Option<Timestamp>, order: Order) -> (p: usize)
    requires
        sorted_by_time(out@, order),
    ensures
        p <= out@.len(),
        forall|k: int| 0 <= k < p ==> in_order(order, #[trigger] out@[k].expected_outcome_time, t),
        forall|k: int| p <= k < out@.len() ==> in_order(order, t, #[trigger] out@[k].expected_outcome_time),
{
    let mut p: usize = 0;
    while p < out.len()
        invariant
            p <= out@.len(),
            sorted_by_time(out@, order),
            forall|k: int| 0 <= k < p ==> in_order(order, #[trigger] out@[k].expected_outcome_time, t),
        decreases out.len() - p,
    {
        let before = match order {
            Order::Earliest => time_less(t, out[p].expected_outcome_time),
            Order::Latest => time_less(out[p].expected_outcome_time, t),
        };
        if before {
            assert forall|k: int| p <= k < out@.len() implies in_order(order, t, #[trigger] out@[k].expected_outcome_time) by {
                if k > p {
                    assert(in_order(order, out@[p as int].expected_outcome_time, out@[k].expected_outcome_time));
                }
            }
            return p;
        }
        p = p + 1;
    }
    p
}

impl InMemory {
    /// The stored events that answer the query, in the query's time order.
    pub fn query_events(&self, query: EventQuery<'_, '_>) -> (r: Vec<Event>)
        requires
            self.wf(),
        ensures
            r@.to_multiset() == matching(self.events(), query@).to_multiset(),
            sorted_by_time(r@, query.order),
    {
        let mut out: Vec<Event> = Vec::new();
        let mut i: usize = 0;
        while i < self.events.len()
            invariant
                self.wf(),
                i <= self.events@.len(),
                out@.to_multiset() == matching(self.events@.take(i as int), query@).to_multiset(),
                sorted_by_time(out@, query.order),
            decreases self.events.len() - i,
        {
            let ghost before = out@;
            assert(self.events@.take(i as int + 1).drop_last() =~= self.events@.take(i as int));
            assert(self.events@.take(i as int + 1).last() == self.events@[i as int]);
            if answers(&query, &self.events[i]) {
                let ev = self.events[i].event.duplicate();
                let p = insert_position(&out, ev.expected_outcome_time, query.order);
                out.insert(p, ev);
                proof {
                    to_multiset_insert(before, p as int, ev);
                    to_multiset_build(matching(self.events@.take(i as int), query@), ev);
                    assert(out@ == before.insert(p as int, ev));
                    assert forall|a: int, b: int| 0 <= a < b < out@.len() implies in_order(
                        query.order,
                        #[trigger] out@[a].expected_outcome_time,
                        #[trigger] out@[b].expected_outcome_time,
                    ) by {
                        if a < p && b < p {
                            assert(out@[a] == before[a] && out@[b] == before[b]);
                        } else if a < p && b == p {
                            assert(out@[a] == before[a]);
                        } else if a < p {
                            assert(out@[a] == before[a] && out@[b] == before[b - 1]);
                            assert(in_order(query.order, before[a].expected_outcome_time, ev.expected_outcome_time));
                        } else if a == p {
                            assert(out@[b] == before[b - 1]);
                        } else {
                            assert(out@[a] == before[a - 1] && out@[b] == before[b - 1]);
                        }
                    }
                }
            }
            i = i + 1;
        }
        assert(self.events@.take(self.events@.len() as int) =~= self.events@);
        out
    }

    /// The first stored event, in the query's time order, that answers the query.
    pub fn query_event(&self, query: EventQuery<'_, '_>) -> (r: Option<Event>)
        requires
            self.wf(),
        ensures
            r is None <==> matching(self.events(), query@).len() == 0,
            r matches Some(e) ==> matching(self.events(), query@).contains(e) && forall|k: int|
                0 <= k < matching(self.events(), query@).len() ==> in_order(
                    query.order,
                    e.expected_outcome_time,
                    #[trigger] matching(self.events(), query@)[k].expected_outcome_time,
                ),
    {
        let all = self.query_events(query);
        let ghost m = matching(self.events(), query@);
        proof {
            m.to_multiset_ensures();
            all@.to_multiset_ensures();
        }
        if all.len() == 0 {
            None
        } else {
            let e = all[0].duplicate();
            proof {
                assert(all@.contains(all@[0]));
                assert(all@.to_multiset().count(e) > 0);
                assert(m.to_multiset().count(e) > 0);
                assert(m.contains(e));
                assert forall|k: int| 0 <= k < m.len() implies in_order(
                    query.order,
                    e.expected_outcome_time,
                    #[trigger] m[k].expected_outcome_time,
                ) by {
                    assert(m.contains(m[k]));
                    assert(all@.to_multiset().count(m[k]) > 0);
                    let j = choose|j: int| 0 <= j < all@.len() && all@[j] == m[k];
                    if j > 0 {
                        assert(in_order(query.order, all@[0].expected_outcome_time, all@[j].expected_outcome_time));
                    }
                }
            }
            Some(e)
        }
    }
}

/// The first name of a path (`None` for the empty path).
pub open spec fn first_segment(s: Seq<char>) -> Option<Seq<char>> {
    if spec_segments(s).len() > 0 {
        Some(spec_segments(s)[0])
    } else {
        None
    }
}

/// The name of the child of `p` that an event at `event_path` lies under.
pub open spec fn child_name_of(event_path: Seq<char>, p: Seq<char>) -> Option<Seq<char>> {
    if spec_is_parent_of(p, event_path) {
        first_segment(spec_strip_prefix_path(event_path, p))
    } else {
        None
    }
}

/// Some stored event lies under the child `name` of `p`.
pub open spec fn is_child_name(s: Seq<AnnouncedEvent>, p: Seq<char>, name: Seq<char>) -> bool {
    exists|i: int| 0 <= i < s.len() && child_name_of(spec_event_path((#[trigger] s[i]).event.id@), p) == Some(name)
}

/// The path of the child `name` of `p`.
pub open spec fn child_path(name: Seq<char>, p: Seq<char>) -> Seq<char> {
    spec_prefix_path(spec_prefix_path(seq!['/'] + name, root_chars()), p)
}

/// A kind, or `List` when none is set.
pub open spec fn kind_or_list(k: Option<NodeKind>) -> NodeKind {
    match k {
        Some(k) => k,
        None => NodeKind::List,
    }
}

/// The children `list` of `p`: one per name some stored event lies under, in strictly
/// increasing order of names, each with the kind set for its path (`List` when none is).
pub open spec fn lists_children(db: InMemory, p: Seq<char>, list: Seq<Child>) -> bool {
    &&& forall|a: int, b: int| 0 <= a < b < list.len() ==> chars_lt(#[trigger] list[a].name@, #[trigger] list[b].name@)
    &&& forall|k: int| 0 <= k < list.len() ==> is_child_name(db.events(), p, (#[trigger] list[k]).name@)
    &&& forall|i: int|
        0 <= i < db.events().len() ==> (child_name_of(spec_event_path((#[trigger] db.events()[i]).event.id@), p) matches Some(n)
            ==> exists|k: int| 0 <= k < list.len() && (#[trigger] list[k]).name@ == n)
    &&& forall|k: int| 0 <= k < list.len() ==> (#[trigger] list[k]).kind == kind_or_list(db.kind_for(child_path(list[k].name@, p)))
}

/// An event id directly at `p`: its path (the id without its kind) is `p`.
pub open spec fn directly_at(id: Seq<char>, p: Seq<char>) -> bool {
    spec_event_path(id) == p
}

/// The kinds of the stored events directly at `p`, in the order they are stored.
pub open spec fn kinds_at(s: Seq<AnnouncedEvent>, p: Seq<char>) -> Seq<EventKind>
    decreases s.len(),
{
    if s.len() == 0 {
        seq![]
    } else if directly_at(s.last().event.id@, p) {
        kinds_at(s.drop_last(), p).push(spec_event_kind(s.last().event.id@))
    } else {
        kinds_at(s.drop_last(), p)
    }
}

/// `r` is what is at the path `p` of the store: the kinds of the events directly at
/// it and its children (`None` when there is neither).  The children are listed
/// (sorted by name) for a path of kind `List` (the kind of a path without one set);
/// for a `Range` they are given by their first and last names and the child that an
/// earliest unattested event under the path lies in.
pub open spec fn node_at(db: InMemory, p: Seq<char>, r: Option<GetPath>) -> bool {
    let kinds = kinds_at(db.events(), p);
    let named = exists|name: Seq<char>| is_child_name(db.events(), p, name);
    &&& (r is None <==> (kinds.len() == 0 && !named))
    &&& r matches Some(gp) ==> {
        &&& gp.events@ == kinds
        &&& match kind_or_list(db.kind_for(p)) {
            NodeKind::List => gp.child_desc matches ChildDesc::List { list } && lists_children(db, p, list@),
            NodeKind::Range { range_kind } => if !named {
                gp.child_desc matches ChildDesc::List { list } && list@.len() == 0
            } else {
                gp.child_desc matches ChildDesc::Range { range_kind: rk, start, next_unattested, end } && rk == range_kind
                    && exists|list: Seq<Child>| {
                        &&& lists_children(db, p, list)
                        &&& list.len() > 0
                        &&& start matches Some(s) && s@ == list[0].name@
                        &&& end matches Some(e) && e@ == list.last().name@
                    }
                    && next_unattested_ok(db, p, next_unattested)
            },
            NodeKind::DateMap => gp.child_desc matches ChildDesc::DateMap { dates } && date_map_of(db.events(), p, dates@),
        }
    }
}

/// A stored event under `p` that is not attested to.
pub open spec fn unattested_under(e: AnnouncedEvent, p: Seq<char>) -> bool {
    starts_with(spec_event_path(e.event.id@), p) && e.attestation is None
}

/// `next` is the child of `p` that an earliest unattested event under `p` lies in
/// (`None` when there is no such event, or it is directly at `p`).
pub open spec fn next_unattested_ok(db: InMemory, p: Seq<char>, next: Option<String>) -> bool {
    let s = db.events();
    if exists|i: int| 0 <= i < s.len() && unattested_under(#[trigger] s[i], p) {
        exists|i: int| {
            &&& 0 <= i < s.len()
            &&& unattested_under(#[trigger] s[i], p)
            &&& forall|j: int| 0 <= j < s.len() && unattested_under(#[trigger] s[j], p)
                ==> time_le(s[i].event.expected_outcome_time, s[j].event.expected_outcome_time)
            &&& match next {
                Some(n) => first_segment(spec_strip_prefix_path(spec_event_path(s[i].event.id@), p)) == Some(n@),
                None => first_segment(spec_strip_prefix_path(spec_event_path(s[i].event.id@), p)) is None,
            }
        }
    } else {
        next is None
    }
}

/// A stored event that answers the query is listed by `matching`.
pub proof fn lemma_matching_complete(s: Seq<AnnouncedEvent>, q: QueryView, i: int)
    requires
        0 <= i < s.len(),
        query_matches(q, s[i]),
    ensures
        matching(s, q).contains(s[i].event),
    decreases s.len(),
{
    if i == s.len() - 1 {
        assert(matching(s, q).last() == s[i].event);
    } else {
        lemma_matching_complete(s.drop_last(), q, i);
        assert(s.drop_last()[i] == s[i]);
        let rest = matching(s.drop_last(), q);
        let k = choose|k: int| 0 <= k < rest.len() && rest[k] == s[i].event;
        if query_matches(q, s.last()) {
            assert(matching(s, q)[k] == rest[k]);
        }
    }
}

/// An event that `matching` lists is a stored event's.
pub proof fn lemma_matching_stored(s: Seq<AnnouncedEvent>, q: QueryView, e: Event)
    requires
        matching(s, q).contains(e),
    ensures
        exists|i: int| 0 <= i < s.len() && (#[trigger] s[i]).event == e && query_matches(q, s[i]),
    decreases s.len(),
{
    if s.len() > 0 {
        let rest = matching(s.drop_last(), q);
        if query_matches(q, s.last()) && e == s.last().event {
            assert(s[s.len() - 1] == s.last());
        } else {
            if query_matches(q, s.last()) {
                assert(matching(s, q) == rest.push(s.last().event));
                let j = choose|j: int| 0 <= j < matching(s, q).len() && matching(s, q)[j] == e;
                assert(j < rest.len());
                assert(rest.contains(e));
            }
            lemma_matching_stored(s.drop_last(), q, e);
            let i = choose|i: int| 0 <= i < s.drop_last().len() && (#[trigger] s.drop_last()[i]).event == e && query_matches(q, s.drop_last()[i]);
            assert(s[i] == s.drop_last()[i]);
        }
    }
}

/// Where a child named `name` goes in a list sorted by name, and whether it is there.
fn name_position(out: &Vec<Child>, name: &String) -> (r: (usize, bool))
    requires
        forall|a: int, b: int| 0 <= a < b < out@.len() ==> chars_lt(#[trigger] out@[a].name@, #[trigger] out@[b].name@),
    ensures
        r.0 <= out@.len(),
        forall|k: int| 0 <= k < r.0 ==> chars_lt(#[trigger] out@[k].name@, name@),
        r.1 ==> r.0 < out@.len() && out@[r.0 as int].name@ == name@,
        !r.1 ==> forall|k: int| r.0 <= k < out@.len() ==> chars_lt(name@, #[trigger] out@[k].name@),
{
    let mut p: usize = 0;
    while p < out.len()
        invariant
            p <= out@.len(),
            forall|a: int, b: int| 0 <= a < b < out@.len() ==> chars_lt(#[trigger] out@[a].name@, #[trigger] out@[b].name@),
            forall|k: int| 0 <= k < p ==> chars_lt(#[trigger] out@[k].name@, name@),
        decreases out.len() - p,
    {
        if !str_lt(out[p].name.as_str(), name.as_str()) {
            proof {
                lemma_chars_lt_total(out@[p as int].name@, name@);
            }
            if str_eq(out[p].name.as_str(), name.as_str()) {
                return (p, true);
            }
            assert forall|k: int| p <= k < out@.len() implies chars_lt(name@, #[trigger] out@[k].name@) by {
                if k > p {
                    lemma_chars_lt_transitive(name@, out@[p as int].name@, out@[k].name@);
                }
            }
            return (p, false);
        }
        p = p + 1;
    }
    (p, false)
}

impl InMemory {
    /// The kind set for the path, `List` when none is.
    fn kind_or_list_at(&self, path: &Path) -> (k: NodeKind)
        requires
            self.wf(),
        ensures
            k == kind_or_list(self.kind_for(path@)),
    {
        match self.node_position(path) {
            Some(i) => self.node_kinds[i].1,
            None => NodeKind::List,
        }
    }

    /// The date map of a path: for each date that the first segment below the path
    /// names, the segments that follow it.
    fn date_map_at(&self, path: PathRef<'_>) -> (r: Vec<(Date, Vec<String>)>)
        requires
            self.wf(),
        ensures
            date_map_of(self.events(), path@, r@),
    {
        let mut out: Vec<(Date, Vec<String>)> = Vec::new();
        let mut i: usize = 0;
        assert(self.events@.take(0) =~= Seq::<AnnouncedEvent>::empty());
        while i < self.events.len()
            invariant
                self.wf(),
                i <= self.events@.len(),
                dates_wf(dates_view(out@)),
                forall|d: Date, n: Seq<char>|
                    #[trigger] has_pair(dates_view(out@), d, n) <==> lists_date(self.events@.take(i as int), path@, d, n),
            decreases self.events.len() - i,
        {
            proof {
                crate::event::lemma_fault_free_strips(self.events@[i as int].event.id@);
                lemma_lists_date_step(self.events@, path@, i as int);
            }
            let ghost entry = date_entry(spec_event_path(self.events@[i as int].event.id@), path@);
            let ghost before = dates_view(out@);
            let event_path = self.events[i].event.id.path();
            let mut added = false;
            if path.is_parent_of(event_path) {
                let rest = event_path.to_path().strip_prefix_path(path);
                let segs = rest.as_path_ref().segments();
                if segs.len() >= 2 {
                    match date_from_str(segs[0].as_str()) {
                        Some(d) => {
                            let name = segs[1].clone();
                            assert(entry == Some((d, name@)));
                            add_date_entry(&mut out, d, name);
                            added = true;
                        },
                        None => {},
                    }
                }
            }
            if !added {
                assert(entry is None);
            }
            i = i + 1;
        }
        assert(self.events@.take(self.events@.len() as int) =~= self.events@);
        out
    }

    /// The children of a path, sorted by name.
    fn children_of(&self, path: PathRef<'_>) -> (r: Vec<Child>)
        requires
            self.wf(),
        ensures
            lists_children(*self, path@, r@),
    {
        let mut out: Vec<Child> = Vec::new();
        let mut i: usize = 0;
        while i < self.events.len()
            invariant
                self.wf(),
                i <= self.events@.len(),
                forall|a: int, b: int| 0 <= a < b < out@.len() ==> chars_lt(#[trigger] out@[a].name@, #[trigger] out@[b].name@),
                forall|k: int| 0 <= k < out@.len() ==> is_child_name(self.events(), path@, (#[trigger] out@[k]).name@),
                forall|j: int|
                    0 <= j < i ==> (child_name_of(spec_event_path((#[trigger] self.events()[j]).event.id@), path@) matches Some(n)
                        ==> exists|k: int| 0 <= k < out@.len() && (#[trigger] out@[k]).name@ == n),
                forall|k: int| 0 <= k < out@.len() ==> (#[trigger] out@[k]).kind == kind_or_list(self.kind_for(child_path(out@[k].name@, path@))),
            decreases self.events.len() - i,
        {
            proof {
                crate::event::lemma_fault_free_strips(self.events@[i as int].event.id@);
            }
            let event_path = self.events[i].event.id.path();
            if path.is_parent_of(event_path) {
                let child = event_path.to_path().strip_prefix_path(path);
                match child.as_path_ref().first() {
                    Some(name) => {
                        let (p, found) = name_position(&out, &name);
                        if !found {
                            let ghost before = out@;
                            let ghost n = name@;
                            let full = Path::root().child(name.as_str()).prefix_path(path);
                            let kind = self.kind_or_list_at(&full);
                            out.insert(p, Child { name, kind });
                            proof {
                                assert(out@ == before.insert(p as int, Child { name: out@[p as int].name, kind }));
                                assert(out@[p as int].name@ == n);
                                assert forall|a: int, b: int| 0 <= a < b < out@.len() implies chars_lt(
                                    #[trigger] out@[a].name@,
                                    #[trigger] out@[b].name@,
                                ) by {
                                    if a < p && b < p {
                                        assert(out@[a] == before[a] && out@[b] == before[b]);
                                    } else if a < p && b == p {
                                        assert(out@[a] == before[a]);
                                    } else if a < p {
                                        assert(out@[a] == before[a] && out@[b] == before[b - 1]);
                                    } else if a == p {
                                        assert(out@[b] == before[b - 1]);
                                    } else {
                                        assert(out@[a] == before[a - 1] && out@[b] == before[b - 1]);
                                    }
                                }
                                assert(is_child_name(self.events(), path@, n)) by {
                                    assert(child_name_of(spec_event_path(self.events()[i as int].event.id@), path@) == Some(n));
                                }
                                assert forall|k: int| 0 <= k < out@.len() implies is_child_name(self.events(), path@, (#[trigger] out@[k]).name@) by {
                                    if k < p {
                                        assert(out@[k] == before[k]);
                                    } else if k > p {
                                        assert(out@[k] == before[k - 1]);
                                    }
                                }
                                assert forall|k: int| 0 <= k < out@.len() implies (#[trigger] out@[k]).kind == kind_or_list(self.kind_for(child_path(out@[k].name@, path@))) by {
                                    if k < p {
                                        assert(out@[k] == before[k]);
                                    } else if k > p {
                                        assert(out@[k] == before[k - 1]);
                                    }
                                }
                                assert forall|j: int|
                                    0 <= j <= i implies (child_name_of(spec_event_path((#[trigger] self.events()[j]).event.id@), path@) matches Some(m)
                                        ==> exists|k: int| 0 <= k < out@.len() && (#[trigger] out@[k]).name@ == m) by {
                                    if j < i {
                                        if let Some(m) = child_name_of(spec_event_path(self.events()[j].event.id@), path@) {
                                            let k0 = choose|k: int| 0 <= k < before.len() && (#[trigger] before[k]).name@ == m;
                                            if k0 < p {
                                                assert(out@[k0] == before[k0]);
                                            } else {
                                                assert(out@[k0 + 1] == before[k0]);
                                            }
                                        }
                                    } else {
                                        assert(out@[p as int].name@ == n);
                                    }
                                }
                            }
                        } else {
                            assert(out@[p as int].name@ == name@);
                        }
                    },
                    None => {},
                }
            }
            i = i + 1;
        }
        out
    }

    /// The kinds of the events directly at a path.
    fn kinds_directly_at(&self, path: PathRef<'_>) -> (r: Vec<EventKind>)
        requires
            self.wf(),
        ensures
            r@ == kinds_at(self.events(), path@),
    {
        let mut out: Vec<EventKind> = Vec::new();
        let mut i: usize = 0;
        while i < self.events.len()
            invariant
                self.wf(),
                i <= self.events@.len(),
                out@ == kinds_at(self.events@.take(i as int), path@),
            decreases self.events.len() - i,
        {
            assert(self.events@.take(i as int + 1).drop_last() =~= self.events@.take(i as int));
            assert(self.events@.take(i as int + 1).last() == self.events@[i as int]);
            let id = &self.events[i].event.id;
            proof {
                crate::event::lemma_fault_free_strips(id@);
            }
            if str_eq(id.path().as_str(), path.as_str()) {
                out.push(id.event_kind());
            }
            i = i + 1;
        }
        assert(self.events@.take(self.events@.len() as int) =~= self.events@);
        out
    }

    /// What is at a path: the kinds of the events directly at it and its children.
    /// `None` when there is neither.
    ///
    /// The children are listed (sorted by name) for a path of kind `List` (the kind of a
    /// path without one set); for a `Range` they are given by their first and last
    /// names and the child that the earliest unattested event under the path lies in.
    pub fn get_node(&self, path: PathRef<'_>) -> (r: Option<GetPath>)
        requires
            self.wf(),
        ensures
            node_at(*self, path@, r),
    {
        let mut query = EventQuery::default();
        query.path = Some(path);
        query.attested = Some(false);
        query.order = Order::Earliest;
        let ghost s = self.events();
        assert forall|e: AnnouncedEvent| query_matches(query@, e) <==> unattested_under(e, path@) by {}
        let found = self.query_event(query);
        let next_unattested = match &found {
            Some(event) => {
                proof {
                    lemma_matching_stored(s, query@, *event);
                    lemma_fault_free_kind_parses(event.id@);
                }
                event.id.path().to_path().strip_prefix_path(path).as_path_ref().first()
            },
            None => None,
        };
        proof {
            match found {
                Some(event) => {
                    let i = choose|i: int| 0 <= i < s.len() && (#[trigger] s[i]).event == event && query_matches(query@, s[i]);
                    assert forall|j: int| 0 <= j < s.len() && unattested_under(#[trigger] s[j], path@)
                        implies time_le(s[i].event.expected_outcome_time, s[j].event.expected_outcome_time) by {
                        lemma_matching_complete(s, query@, j);
                        let m = matching(s, query@);
                        let k = choose|k: int| 0 <= k < m.len() && m[k] == s[j].event;
                        assert(in_order(Order::Earliest, event.expected_outcome_time, m[k].expected_outcome_time));
                    }
                    assert(unattested_under(s[i], path@));
                },
                None => {
                    assert forall|j: int| 0 <= j < s.len() implies !unattested_under(#[trigger] s[j], path@) by {
                        if unattested_under(s[j], path@) {
                            lemma_matching_complete(s, query@, j);
                        }
                    }
                },
            }
        }
        let node_kind = self.kind_or_list_at(&path.to_path());
        let children = self.children_of(path);
        let events = self.kinds_directly_at(path);
        proof {
            if exists|name: Seq<char>| is_child_name(self.events(), path@, name) {
                let name = choose|name: Seq<char>| is_child_name(self.events(), path@, name);
                let i = choose|i: int| 0 <= i < self.events().len() && child_name_of(spec_event_path((#[trigger] self.events()[i]).event.id@), path@) == Some(name);
                assert(child_name_of(spec_event_path(self.events()[i].event.id@), path@) == Some(name));
                assert(children@.len() > 0);
            }
            if children@.len() > 0 {
                assert(is_child_name(self.events(), path@, children@[0].name@));
            }
        }
        let empty = events.len() == 0 && children.len() == 0;
        let child_desc = match node_kind {
            NodeKind::List => ChildDesc::List { list: children },
            NodeKind::Range { range_kind } => {
                if children.len() == 0 {
                    ChildDesc::List { list: Vec::new() }
                } else {
                    let start = children[0].name.clone();
                    let end = children[children.len() - 1].name.clone();
                    ChildDesc::Range { range_kind, start: Some(start), next_unattested, end: Some(end) }
                }
            },
            NodeKind::DateMap => ChildDesc::DateMap { dates: self.date_map_at(path) },
        };
        if empty {
            None
        } else {
            Some(GetPath { events, child_desc })
        }
    }
}

/// The event stored with the id in `s`.
pub open spec fn old_events_for(s: Seq<AnnouncedEvent>, id: Seq<char>) -> Option<AnnouncedEvent> {
    match index_of(s, id) {
        Some(i) => Some(s[i]),
        None => None,
    }
}

/// The kind stored for the path in `s`.
pub open spec fn old_kinds_for(s: Seq<(Path, NodeKind)>, path: Seq<char>) -> Option<NodeKind> {
    match node_index_of(s, path) {
        Some(i) => Some(s[i].1),
        None => None,
    }
}

} // verus!
