//! A view of a store under a path: queries are moved under the prefix, and the
//! events they find are moved back out from under it.
use vstd::prelude::*;
use crate::db::in_memory::{matching, sorted_by_time, InMemory};
use crate::db::{EventQuery, QueryView};
use crate::event::Event;
use crate::path::{root_chars, spec_prefix_path, spec_strip_prefix_path, Path, PathRef, PrefixPath};

verus! {

/// The store seen from under `prefix`.
pub struct PrefixedDb<'a> {
    inner: &'a InMemory,
    prefix: Path,
}

/// The query under the prefix: its path (the root when it has none) put under `prefix`.
pub open spec fn prefixed_query(q: QueryView, prefix: Seq<char>) -> QueryView {
    let path = match q.0 {
        Some(p) => p,
        None => root_chars(),
    };
    (Some(spec_prefix_path(path, prefix)), q.1, q.2, q.3, q.4)
}

/// `r` is `v` with each event's id moved out from under `prefix`.
pub open spec fn stripped(v: Seq<Event>, prefix: Seq<char>, r: Seq<Event>) -> bool {
    &&& r.len() == v.len()
    &&& forall|k: int|
        0 <= k < r.len() ==> (#[trigger] r[k]).id@ == spec_strip_prefix_path(v[k].id@, prefix)
            && r[k].expected_outcome_time == v[k].expected_outcome_time
}

impl<'a> PrefixedDb<'a> {
    /// The store that the view reads.
    pub closed spec fn store(&self) -> InMemory {
        *self.inner
    }

    /// The prefix.
    pub closed spec fn prefix(&self) -> Seq<char> {
        self.prefix@
    }

    pub fn new(db: &'a InMemory, prefix: Path) -> (r: Self)
        ensures
            r.store() == *db,
            r.prefix() == prefix@,
    {
        PrefixedDb { inner: db, prefix }
    }

    /// The events under the prefix that answer the query, moved out from under it, in
    /// the query's time order.
    pub fn query_events(&self, query: EventQuery<'_, '_>) -> (r: Vec<Event>)
        requires
            self.store().wf(),
        ensures
            exists|v: Seq<Event>| {
                &&& v.to_multiset() == matching(self.store().events(), prefixed_query(query@, self.prefix())).to_multiset()
                &&& sorted_by_time(v, query.order)
                &&& stripped(v, self.prefix(), r@)
            },
    {
        let path = match query.path {
            Some(p) => p.to_path(),
            None => Path::root(),
        };
        let prefixed = path.prefix_path(self.prefix.as_path_ref());
        let q = EventQuery {
            path: Some(prefixed.as_path_ref()),
            attested: query.attested,
            order: query.order,
            ends_with: query.ends_with,
            kind: query.kind,
        };
        assert(q@ == prefixed_query(query@, self.prefix()));
        let found = self.inner.query_events(q);
        let mut out: Vec<Event> = Vec::new();
        let mut i: usize = 0;
        while i < found.len()
            invariant
                i <= found@.len(),
                out@.len() == i,
                forall|k: int|
                    0 <= k < i ==> (#[trigger] out@[k]).id@ == spec_strip_prefix_path(found@[k].id@, self.prefix())
                        && out@[k].expected_outcome_time == found@[k].expected_outcome_time,
            decreases found.len() - i,
        {
            let e = found[i].duplicate();
            out.push(e.strip_prefix_path(self.prefix.as_path_ref()));
            i = i + 1;
        }
        out
    }

    /// The first event under the prefix, in the query's time order, that answers the
    /// query, moved out from under the prefix.
    pub fn query_event(&self, query: EventQuery<'_, '_>) -> (r: Option<Event>)
        requires
            self.store().wf(),
        ensures
            ({
                let m = matching(self.store().events(), prefixed_query(query@, self.prefix()));
                &&& r is None <==> m.len() == 0
                &&& r matches Some(e) ==> exists|k: int| {
                    &&& 0 <= k < m.len()
                    &&& e.id@ == spec_strip_prefix_path((#[trigger] m[k]).id@, self.prefix())
                    &&& e.expected_outcome_time == m[k].expected_outcome_time
                    &&& forall|j: int| 0 <= j < m.len() ==> crate::db::in_order(
                        query.order,
                        m[k].expected_outcome_time,
                        #[trigger] m[j].expected_outcome_time,
                    )
                }
            }),
    {
        let path = match query.path {
            Some(p) => p.to_path(),
            None => Path::root(),
        };
        let prefixed = path.prefix_path(self.prefix.as_path_ref());
        let q = EventQuery {
            path: Some(prefixed.as_path_ref()),
            attested: query.attested,
            order: query.order,
            ends_with: query.ends_with,
            kind: query.kind,
        };
        assert(q@ == prefixed_query(query@, self.prefix()));
        match self.inner.query_event(q) {
            Some(e) => {
                let ghost m = matching(self.store().events(), q@);
                proof {
                    let k = choose|k: int| 0 <= k < m.len() && m[k] == e;
                    assert(e.id@ == m[k].id@);
                }
                Some(e.strip_prefix_path(self.prefix.as_path_ref()))
            },
            None => None,
        }
    }
}

} // verus!
