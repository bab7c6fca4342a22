//! The oracle's store: announced events, their attestations, node kinds and the
//! oracle's public keys, and the queries that read them.
pub mod date_map;
pub mod in_memory;
pub mod prefixed;


use vstd::prelude::*;
use crate::announcement::AnnouncedEvent;
use crate::event::{spec_event_kind, spec_event_path, EventKind};
use crate::path::{root_chars, PathRef};
use crate::text::{ends_with, starts_with};
use crate::time::Timestamp;

verus! {

/// Which end of the time order a query starts from.
#[derive(Clone, Copy, Debug, PartialEq, Eq, Structural)]
pub enum Order {
    Earliest,
    Latest,
}

impl Default for Order {
    fn default() -> (o: Self)
        ensures
            o == Order::Earliest,
    {
        Order::Earliest
    }
}

/// A query for events: under a path, attested or not, ending with a path, of a kind.
#[derive(Debug, Clone, Copy)]
pub struct EventQuery<'a, 'b> {
    pub path: Option<PathRef<'a>>,
    pub attested: Option<bool>,
    pub order: Order,
    pub ends_with: PathRef<'b>,
    pub kind: Option<EventKind>,
}

impl<'a, 'b> Default for EventQuery<'a, 'b> {
    fn default() -> (q: Self)
        ensures
            q.path is None,
            q.attested is None,
            q.order == Order::Earliest,
            q.ends_with@ == root_chars(),
            q.kind is None,
    {
        EventQuery {
            path: None,
            attested: None,
            order: Order::Earliest,
            ends_with: PathRef::root(),
            kind: None,
        }
    }
}

/// A query by value: path, attested, order, `ends_with`, kind.
pub type QueryView = (Option<Seq<char>>, Option<bool>, Order, Seq<char>, Option<EventKind>);

impl<'a, 'b> View for EventQuery<'a, 'b> {
    type V = QueryView;

    open spec fn view(&self) -> QueryView {
        (
            match self.path {
                Some(p) => Some(p@),
                None => None,
            },
            self.attested,
            self.order,
            self.ends_with@,
            self.kind,
        )
    }
}

/// Whether a stored event answers the query: its path starts with the query's path,
/// ends with the query's `ends_with` (the root: any), its kind and whether it is
/// attested to are those asked for.
pub open spec fn query_matches(q: QueryView, e: AnnouncedEvent) -> bool {
    let path_id = spec_event_path(e.event.id@);
    &&& (q.0 matches Some(p) ==> starts_with(path_id, p))
    &&& (q.3 == root_chars() || ends_with(path_id, q.3))
    &&& (q.4 matches Some(k) ==> spec_event_kind(e.event.id@) == k)
    &&& (q.1 matches Some(a) ==> a == (e.attestation is Some))
}

/// The order of expected outcome times: no time first, then by seconds and nanoseconds.
pub open spec fn time_le(a: Option<Timestamp>, b: Option<Timestamp>) -> bool {
    match (a, b) {
        (None, _) => true,
        (Some(_), None) => false,
        (Some(x), Some(y)) => x.secs < y.secs || (x.secs == y.secs && x.nanos <= y.nanos),
    }
}

/// `a` comes strictly before `b` in the time order.
pub open spec fn time_lt(a: Option<Timestamp>, b: Option<Timestamp>) -> bool {
    !time_le(b, a)
}

/// Compares two expected outcome times.
pub fn time_less(a: Option<Timestamp>, b: Option<Timestamp>) -> (r: bool)
    ensures
        r == time_lt(a, b),
{
    match (a, b) {
        (None, None) => false,
        (None, Some(_)) => true,
        (Some(_), None) => false,
        (Some(x), Some(y)) => x.secs < y.secs || (x.secs == y.secs && x.nanos < y.nanos),
    }
}

/// Times in the order the query asks for: `Earliest` ascending, `Latest` descending.
pub open spec fn in_order(order: Order, a: Option<Timestamp>, b: Option<Timestamp>) -> bool {
    match order {
        Order::Earliest => time_le(a, b),
        Order::Latest => time_le(b, a),
    }
}

} // verus!
