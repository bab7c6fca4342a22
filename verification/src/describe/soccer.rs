//! Descriptions of soccer paths, given the segments after `/soccer`.
use vstd::prelude::*;
use super::{lookup_competition, lookup_team, spec_lookup_competition, spec_lookup_team};
use crate::event::VsMatchKind;
use crate::text::{chars_of, push_str, split, split_chars, str_eq, string_from, string_of};

verus! {

/// The description of a soccer match event.
pub open spec fn spec_event_short_vs(
    competition: Seq<char>,
    date: Seq<char>,
    left: Seq<char>,
    right: Seq<char>,
    vs_kind: VsMatchKind,
) -> Seq<char> {
    let l = spec_lookup_team(competition, left);
    let r = spec_lookup_team(competition, right);
    let c = spec_lookup_competition(competition);
    match vs_kind {
        VsMatchKind::WinOrDraw => l + " vs "@ + r + " in the "@ + c + " on "@ + date
            + " (possibly a draw)"@,
        VsMatchKind::Win => "Whether "@ + l + " wins in their match against "@ + r + " in the "@
            + c + " on "@ + date,
    }
}

/// The description of a soccer path, from its segments after `/soccer`.
pub open spec fn spec_soccer_path_short(segs: Seq<Seq<char>>) -> Option<Seq<char>> {
    if segs.len() == 0 {
        Some("Soccer competitions"@)
    } else if segs.len() == 1 {
        Some("The "@ + spec_lookup_competition(segs[0]))
    } else if segs[1] != "match"@ {
        None
    } else if segs.len() == 2 {
        Some("Matches in the "@ + spec_lookup_competition(segs[0]))
    } else if segs.len() == 3 {
        Some("Matches in the "@ + spec_lookup_competition(segs[0]) + " set to be played on "@
            + segs[2])
    } else if segs.len() == 4 {
        let teams = split(segs[3], '_');
        if teams.len() < 2 {
            None
        } else {
            Some(spec_lookup_team(segs[0], teams[0]) + " vs "@ + spec_lookup_team(segs[0], teams[1])
                + " in the "@ + spec_lookup_competition(segs[0]) + " on "@ + segs[2])
        }
    } else {
        None
    }
}

/// The view of each of a slice of strings.
pub open spec fn views(segments: Seq<&str>) -> Seq<Seq<char>> {
    segments.map_values(|s: &str| s@)
}

/// Describes a soccer match event.
pub fn event_short_vs(
    competition: &str,
    date: &str,
    left: &str,
    right: &str,
    vs_kind: VsMatchKind,
) -> (s: String)
    ensures
        s@ == spec_event_short_vs(competition@, date@, left@, right@, vs_kind),
{
    let l = lookup_team(competition, left);
    let r = lookup_team(competition, right);
    let c = lookup_competition(competition);
    match vs_kind {
        VsMatchKind::WinOrDraw => {
            let mut s = string_of(l);
            push_str(&mut s, " vs ");
            push_str(&mut s, r);
            push_str(&mut s, " in the ");
            push_str(&mut s, c);
            push_str(&mut s, " on ");
            push_str(&mut s, date);
            push_str(&mut s, " (possibly a draw)");
            s
        },
        VsMatchKind::Win => {
            let mut s = string_of("Whether ");
            push_str(&mut s, l);
            push_str(&mut s, " wins in their match against ");
            push_str(&mut s, r);
            push_str(&mut s, " in the ");
            push_str(&mut s, c);
            push_str(&mut s, " on ");
            push_str(&mut s, date);
            s
        },
    }
}

/// The long description of a soccer path; the same as the short one.
pub fn path_long(segments: &[&str]) -> (r: Option<String>)
    ensures
        match r {
            Some(s) => spec_soccer_path_short(views(segments@)) == Some(s@),
            None => spec_soccer_path_short(views(segments@)) is None,
        },
{
    path_short(segments)
}

/// Describes a soccer path, given its segments after `/soccer`.
pub fn path_short(segments: &[&str]) -> (r: Option<String>)
    ensures
        match r {
            Some(s) => spec_soccer_path_short(views(segments@)) == Some(s@),
            None => spec_soccer_path_short(views(segments@)) is None,
        },
{
    let ghost segs = views(segments@);
    let n = segments.len();
    if n == 0 {
        return Some(string_of("Soccer competitions"));
    }
    assert(segs[0] == segments@[0]@);
    let competition = segments[0];
    if n == 1 {
        let mut s = string_of("The ");
        push_str(&mut s, lookup_competition(competition));
        return Some(s);
    }
    assert(segs[1] == segments@[1]@);
    if !str_eq(segments[1], "match") {
        return None;
    }
    if n == 2 {
        let mut s = string_of("Matches in the ");
        push_str(&mut s, lookup_competition(competition));
        return Some(s);
    }
    assert(segs[2] == segments@[2]@);
    let date = segments[2];
    if n == 3 {
        let mut s = string_of("Matches in the ");
        push_str(&mut s, lookup_competition(competition));
        push_str(&mut s, " set to be played on ");
        push_str(&mut s, date);
        return Some(s);
    }
    if n == 4 {
        assert(segs[3] == segments@[3]@);
        let tv = chars_of(segments[3]);
        let teams = split_chars(tv.as_slice(), '_');
        if teams.len() < 2 {
            return None;
        }
        let left_code = string_from(teams[0].as_slice());
        let right_code = string_from(teams[1].as_slice());
        let left = lookup_team(competition, left_code.as_str());
        let right = lookup_team(competition, right_code.as_str());
        let mut s = string_of(left);
        push_str(&mut s, " vs ");
        push_str(&mut s, right);
        push_str(&mut s, " in the ");
        push_str(&mut s, lookup_competition(competition));
        push_str(&mut s, " on ");
        push_str(&mut s, date);
        return Some(s);
    }
    None
}

} // verus!
