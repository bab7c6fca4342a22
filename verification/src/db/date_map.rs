//! Children of a node grouped by date: for each date named by the first segment below
//! the node, the names of the segments after it.
use vstd::prelude::*;
use crate::announcement::AnnouncedEvent;
use crate::event::spec_event_path;
use crate::path::{spec_is_parent_of, spec_segments, spec_strip_prefix_path};
use crate::text::str_eq;
use crate::time::naive_date_from_str;

verus! {

/// A date as year, month and day.
pub type Date = (i32, u32, u32);

/// Dates in calendar order.
pub open spec fn date_lt(a: Date, b: Date) -> bool {
    a.0 < b.0 || (a.0 == b.0 && (a.1 < b.1 || (a.1 == b.1 && a.2 < b.2)))
}

/// The date, and the name after it, that an event at `event_path` is listed by in the
/// date map of `p`: the first two segments below `p`, when the first is a date.
pub open spec fn date_entry(event_path: Seq<char>, p: Seq<char>) -> Option<(Date, Seq<char>)> {
    if spec_is_parent_of(p, event_path) {
        let segs = spec_segments(spec_strip_prefix_path(event_path, p));
        if segs.len() >= 2 {
            match naive_date_from_str(segs[0]) {
                Some(d) => Some((d, segs[1])),
                None => None,
            }
        } else {
            None
        }
    } else {
        None
    }
}

/// Some event of `s` is listed in the date map of `p` under the date `d` with the name `n`.
pub open spec fn lists_date(s: Seq<AnnouncedEvent>, p: Seq<char>, d: Date, n: Seq<char>) -> bool {
    exists|e: int| 0 <= e < s.len() && date_entry(spec_event_path((#[trigger] s[e]).event.id@), p) == Some((d, n))
}

/// The dates of a date map with the names under each.
pub open spec fn dates_view(v: Seq<(Date, Vec<String>)>) -> Seq<(Date, Seq<Seq<char>>)> {
    v.map_values(|e: (Date, Vec<String>)| (e.0, e.1@.map_values(|s: String| s@)))
}

/// Dates in strictly increasing order, each with at least one name and no name twice.
pub open spec fn dates_wf(v: Seq<(Date, Seq<Seq<char>>)>) -> bool {
    &&& forall|a: int, b: int| 0 <= a < b < v.len() ==> date_lt(#[trigger] v[a].0, #[trigger] v[b].0)
    &&& forall|k: int| 0 <= k < v.len() ==> (#[trigger] v[k]).1.len() > 0
    &&& forall|k: int, a: int, b: int|
        #![trigger v[k].1[a], v[k].1[b]]
        0 <= k < v.len() && 0 <= a < b < v[k].1.len() ==> v[k].1[a] != v[k].1[b]
}

/// The date map lists the name `n` under the date `d`.
pub open spec fn has_pair(v: Seq<(Date, Seq<Seq<char>>)>, d: Date, n: Seq<char>) -> bool {
    exists|k: int| 0 <= k < v.len() && (#[trigger] v[k]).0 == d && v[k].1.contains(n)
}

/// `dates` is the date map of `p` over the events `s`: every listed pair comes from an
/// event, and every event with a date below `p` is listed.
pub open spec fn date_map_of(s: Seq<AnnouncedEvent>, p: Seq<char>, dates: Seq<(Date, Vec<String>)>) -> bool {
    &&& dates_wf(dates_view(dates))
    &&& forall|d: Date, n: Seq<char>| #[trigger] has_pair(dates_view(dates), d, n) <==> lists_date(s, p, d, n)
}

/// The events of `s` up to `i + 1` list a pair when those up to `i` do, or the event at
/// `i` is listed by it.
pub proof fn lemma_lists_date_step(s: Seq<AnnouncedEvent>, p: Seq<char>, i: int)
    requires
        0 <= i < s.len(),
    ensures
        forall|d: Date, n: Seq<char>|
            #[trigger] lists_date(s.take(i + 1), p, d, n) <==> (lists_date(s.take(i), p, d, n) || date_entry(
                spec_event_path(s[i].event.id@),
                p,
            ) == Some((d, n))),
{
    let t = s.take(i + 1);
    let u = s.take(i);
    assert forall|d: Date, n: Seq<char>|
        #[trigger] lists_date(t, p, d, n) <==> (lists_date(u, p, d, n) || date_entry(spec_event_path(s[i].event.id@), p)
            == Some((d, n))) by {
        if lists_date(t, p, d, n) {
            let e = choose|e: int| 0 <= e < t.len() && date_entry(spec_event_path((#[trigger] t[e]).event.id@), p) == Some((d, n));
            if e < i {
                assert(u[e] == t[e]);
            }
        }
        if lists_date(u, p, d, n) {
            let e = choose|e: int| 0 <= e < u.len() && date_entry(spec_event_path((#[trigger] u[e]).event.id@), p) == Some((d, n));
            assert(t[e] == u[e]);
        }
        if date_entry(spec_event_path(s[i].event.id@), p) == Some((d, n)) {
            assert(t[i] == s[i]);
        }
    }
}

fn date_less(a: Date, b: Date) -> (r: bool)
    ensures
        r == date_lt(a, b),
{
    a.0 < b.0 || (a.0 == b.0 && (a.1 < b.1 || (a.1 == b.1 && a.2 < b.2)))
}

/// Whether `name` is among `names`.
fn contains_name(names: &Vec<String>, name: &String) -> (r: bool)
    ensures
        r == names@.map_values(|s: String| s@).contains(name@),
{
    let ghost view = names@.map_values(|s: String| s@);
    let mut i: usize = 0;
    while i < names.len()
        invariant
            i <= names@.len(),
            view == names@.map_values(|s: String| s@),
            forall|j: int| 0 <= j < i ==> view[j] != name@,
        decreases names.len() - i,
    {
        if str_eq(names[i].as_str(), name.as_str()) {
            assert(view[i as int] == name@);
            return true;
        }
        i = i + 1;
    }
    false
}

/// Lists `name` under `key`, keeping the dates in order and the names without repeats.
pub fn add_date_entry(dates: &mut Vec<(Date, Vec<String>)>, key: Date, name: String)
    requires
        dates_wf(dates_view(old(dates)@)),
    ensures
        dates_wf(dates_view(final(dates)@)),
        forall|d: Date, n: Seq<char>|
            #[trigger] has_pair(dates_view(final(dates)@), d, n) <==> (has_pair(dates_view(old(dates)@), d, n) || (d
                == key && n == name@)),
{
    let ghost before = dates_view(dates@);
    let mut i: usize = 0;
    while i < dates.len() && date_less(dates[i].0, key)
        invariant
            i <= dates@.len(),
            dates@ == old(dates)@,
            before == dates_view(dates@),
            forall|j: int| 0 <= j < i ==> date_lt(#[trigger] before[j].0, key),
        decreases dates.len() - i,
    {
        i = i + 1;
    }
    if i < dates.len() && dates[i].0.0 == key.0 && dates[i].0.1 == key.1 && dates[i].0.2 == key.2 {
        assert(before[i as int].0 == key);
        if !contains_name(&dates[i].1, &name) {
            let (k, mut names) = dates.remove(i);
            let ghost nview = names@.map_values(|s: String| s@);
            let ghost n = name@;
            names.push(name);
            assert(names@.map_values(|s: String| s@) =~= nview.push(n));
            dates.insert(i, (k, names));
            let ghost after = dates_view(dates@);
            assert(after =~= before.update(i as int, (key, nview.push(n))));
            assert forall|d: Date, m: Seq<char>|
                #[trigger] has_pair(after, d, m) <==> (has_pair(before, d, m) || (d == key && m == n)) by {
                if has_pair(after, d, m) {
                    let k = choose|k: int| 0 <= k < after.len() && (#[trigger] after[k]).0 == d && after[k].1.contains(m);
                    if k != i {
                        assert(after[k] == before[k]);
                    } else if m != n {
                        let j = choose|j: int| 0 <= j < after[k].1.len() && after[k].1[j] == m;
                        assert(before[k].1[j] == m);
                    }
                }
                if has_pair(before, d, m) {
                    let k = choose|k: int| 0 <= k < before.len() && (#[trigger] before[k]).0 == d && before[k].1.contains(m);
                    let j = choose|j: int| 0 <= j < before[k].1.len() && before[k].1[j] == m;
                    if k == i {
                        assert(after[k].1[j] == m);
                    } else {
                        assert(after[k] == before[k]);
                    }
                    assert(after[k].1.contains(m));
                }
                if d == key && m == n {
                    assert(after[i as int].1[nview.len() as int] == m);
                    assert(after[i as int].1.contains(m));
                }
            }
        } else {
            assert forall|d: Date, m: Seq<char>|
                #[trigger] has_pair(before, d, m) <==> (has_pair(before, d, m) || (d == key && m == name@)) by {
                if d == key && m == name@ {
                    assert(before[i as int].1.contains(m));
                }
            }
        }
    } else {
        let ghost n = name@;
        let mut names: Vec<String> = Vec::new();
        names.push(name);
        assert(names@.map_values(|s: String| s@) =~= seq![n]);
        dates.insert(i, (key, names));
        let ghost after = dates_view(dates@);
        assert(after =~= before.insert(i as int, (key, seq![n])));
        assert forall|a: int, b: int| 0 <= a < b < after.len() implies date_lt(#[trigger] after[a].0, #[trigger] after[b].0) by {
            if b < i {
                assert(after[a] == before[a] && after[b] == before[b]);
            } else if b == i {
                assert(after[a] == before[a]);
            } else if a < i {
                assert(after[a] == before[a] && after[b] == before[b - 1]);
                assert(date_lt(before[a].0, key));
                assert(!date_lt(before[i as int].0, key));
            } else if a == i {
                assert(after[b] == before[b - 1]);
                assert(!date_lt(before[i as int].0, key));
            } else {
                assert(after[a] == before[a - 1] && after[b] == before[b - 1]);
            }
        }
        assert forall|k: int, x: int, y: int|
            #![trigger after[k].1[x], after[k].1[y]]
            0 <= k < after.len() && 0 <= x < y < after[k].1.len() implies after[k].1[x] != after[k].1[y] by {
            if k < i {
                assert(after[k] == before[k]);
            } else if k > i {
                assert(after[k] == before[k - 1]);
            }
        }
        assert forall|k: int| 0 <= k < after.len() implies (#[trigger] after[k]).1.len() > 0 by {
            if k < i {
                assert(after[k] == before[k]);
            } else if k > i {
                assert(after[k] == before[k - 1]);
            }
        }
        assert forall|d: Date, m: Seq<char>|
            #[trigger] has_pair(after, d, m) <==> (has_pair(before, d, m) || (d == key && m == n)) by {
            if has_pair(after, d, m) {
                let k = choose|k: int| 0 <= k < after.len() && (#[trigger] after[k]).0 == d && after[k].1.contains(m);
                if k < i {
                    assert(after[k] == before[k]);
                } else if k > i {
                    assert(after[k] == before[k - 1]);
                } else {
                    let j = choose|j: int| 0 <= j < after[k].1.len() && after[k].1[j] == m;
                }
            }
            if has_pair(before, d, m) {
                let k = choose|k: int| 0 <= k < before.len() && (#[trigger] before[k]).0 == d && before[k].1.contains(m);
                if k < i {
                    assert(after[k] == before[k]);
                } else {
                    assert(after[k + 1] == before[k]);
                }
            }
            if d == key && m == n {
                assert(after[i as int].1[0] == m);
                assert(after[i as int].1.contains(m));
            }
        }
    }
}

} // verus!
