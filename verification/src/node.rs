//! What a path holds: the kinds of the events on it and how its children are listed.
use vstd::prelude::*;
use crate::db::date_map::Date;
use crate::event::EventKind;
use crate::path::{spec_prefix_path, spec_strip_prefix_path, Path, PathRef, PrefixPath};

verus! {

#[derive(Clone, Copy, Debug, PartialEq, Eq, Structural)]
pub enum RangeKind {
    Time { interval: u32 },
}

#[derive(Clone, Copy, Debug, PartialEq, Eq, Structural)]
pub enum NodeKind {
    List,
    Range { range_kind: RangeKind },
    DateMap,
}

#[derive(Clone, Debug, PartialEq)]
pub struct Child {
    pub name: String,
    pub kind: NodeKind,
}

#[derive(Debug, Clone, PartialEq)]
pub enum ChildDesc {
    List { list: Vec<Child> },
    Range {
        range_kind: RangeKind,
        start: Option<String>,
        next_unattested: Option<String>,
        end: Option<String>,
    },
    /// Children grouped by date (year, month, day), dates in increasing order, each with
    /// the names that follow it.
    DateMap { dates: Vec<(Date, Vec<String>)> },
}

#[derive(Debug, Clone, PartialEq)]
pub struct GetPath {
    pub events: Vec<EventKind>,
    pub child_desc: ChildDesc,
}

#[derive(Clone, Debug, PartialEq)]
pub struct Node {
    pub path: Path,
    pub kind: NodeKind,
}

impl PrefixPath for Node {
    fn prefix_path(self, path: PathRef<'_>) -> (r: Self)
        ensures
            r.path@ == spec_prefix_path(self.path@, path@),
            r.kind == self.kind,
    {
        Node { path: self.path.prefix_path(path), kind: self.kind }
    }

    fn strip_prefix_path(self, path: PathRef<'_>) -> (r: Self)
        ensures
            r.path@ == spec_strip_prefix_path(self.path@, path@),
            r.kind == self.kind,
    {
        Node { path: self.path.strip_prefix_path(path), kind: self.kind }
    }
}

} // verus!
