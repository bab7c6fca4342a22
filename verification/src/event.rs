//! Event kinds and event ids: a path followed by `.` (or, where its last segment holds
//! no `.`, by `?`) and the kind, such as `/s/EPL/match/2021-08-13/BRE_ARS.vs`.  A kind
//! is plain (`vs`, `win`, `occur`, `digits_<n>`, `price`, `price?n=<n>`), a bound on a
//! price (`price_<bound>`), or a predicate naming an outcome of the event under it
//! (`vs=ARS_win`).
use vstd::prelude::*;
use crate::descriptor::Descriptor;
use crate::path::{
    spec_last, spec_prefix_path, spec_strip_event, spec_strip_prefix_path, valid_path, Path,
    PathRef, PrefixPath,
};
use crate::text::{
    all_digits, chars_eq_str, digit_value, chars_of, decimal, decimal_string, digit_char, digits_value,
    find, find_char, is_digit, lemma_find_none, lemma_find_some, lemma_split_none,
    lemma_split_step, parse_decimal, parse_decimal_below, parse_u8, push_char, push_chars, push_str, split,
    split_chars, starts_with, string_of,
};
use crate::time::{chrono_date_time_text, Timestamp};
use vstd::utf8::encode_utf8;

verus! {

#[derive(Debug, Clone, Copy, PartialEq, Eq, Structural, PartialOrd, Ord, Hash)]
pub enum VsMatchKind {
    WinOrDraw,
    Win,
}

/// The kinds of event whose outcome a predicate can name.
#[derive(Debug, Clone, Copy, PartialEq, Eq, Structural, PartialOrd, Ord, Hash)]
pub enum Predicated {
    VsMatch(VsMatchKind),
    SingleOccurrence,
}

#[derive(Debug, Clone, Copy, PartialEq, Eq, Structural, PartialOrd, Ord, Hash)]
pub enum EventKind {
    VsMatch(VsMatchKind),
    SingleOccurrence,
    Digits(u8),
    /// `price`, or `price?n=<n>` with the number of digits it is given in (0: not given).
    Price { n_digits: u8 },
    /// `price_<bound>`: whether the price is greater than the bound.
    PriceAbove(u32),
    /// `<kind>=<outcome>`: whether the outcome of the event of the inner kind is the
    /// one at the index among its outcomes.
    Equals(Predicated, u8),
}

#[derive(Debug, Clone)]
pub enum EventKindError {
    Unknown,
}

/// How an event kind is written; a predicate's outcome is written from its path
/// (see [`spec_kind_text`]), so here only its inner kind is.
pub open spec fn kind_chars(k: EventKind) -> Seq<char> {
    match k {
        EventKind::VsMatch(VsMatchKind::Win) => "win"@,
        EventKind::VsMatch(VsMatchKind::WinOrDraw) => "vs"@,
        EventKind::SingleOccurrence => "occur"@,
        EventKind::Digits(n) => "digits_"@ + decimal(n as nat),
        EventKind::Price { n_digits } => if n_digits == 0 {
            "price"@
        } else {
            "price?n="@ + decimal(n_digits as nat)
        },
        EventKind::PriceAbove(b) => "price_"@ + decimal(b as nat),
        EventKind::Equals(Predicated::VsMatch(VsMatchKind::Win), _) => "win"@,
        EventKind::Equals(Predicated::VsMatch(VsMatchKind::WinOrDraw), _) => "vs"@,
        EventKind::Equals(Predicated::SingleOccurrence, _) => "occur"@,
    }
}

/// The event kind that a predicated kind is.
pub open spec fn predicated_kind(p: Predicated) -> EventKind {
    match p {
        Predicated::VsMatch(k) => EventKind::VsMatch(k),
        Predicated::SingleOccurrence => EventKind::SingleOccurrence,
    }
}

/// The kind that `s` names, read from its `_`-separated pieces (predicates are read
/// with their event's path, by [`spec_kind_at`]).
pub open spec fn spec_parse_kind(s: Seq<char>) -> Option<EventKind> {
    let segs = split(s, '_');
    if segs.len() == 1 && segs[0] == "vs"@ {
        Some(EventKind::VsMatch(VsMatchKind::WinOrDraw))
    } else if segs.len() == 1 && segs[0] == "win"@ {
        Some(EventKind::VsMatch(VsMatchKind::Win))
    } else if segs.len() == 1 && segs[0] == "occur"@ {
        Some(EventKind::SingleOccurrence)
    } else if segs.len() == 2 && segs[0] == "digits"@ && parse_u8(segs[1]) is Some {
        Some(EventKind::Digits(parse_u8(segs[1])->0))
    } else if s == "price"@ {
        Some(EventKind::Price { n_digits: 0 })
    } else if segs.len() == 1 && starts_with(s, "price?n="@) && parse_u8(s.skip(8)) is Some
        && parse_u8(s.skip(8))->0 > 0 {
        Some(EventKind::Price { n_digits: parse_u8(s.skip(8))->0 })
    } else if segs.len() == 2 && segs[0] == "price"@ && parse_decimal(segs[1]) is Some
        && parse_decimal(segs[1])->0 < 0x1_0000_0000 {
        Some(EventKind::PriceAbove(parse_decimal(segs[1])->0 as u32))
    } else {
        None
    }
}

/// The two parties named by the last segment of a path.
pub open spec fn spec_path_parties(path: Seq<char>) -> (Seq<char>, Seq<char>) {
    let teams = split(spec_last(path), '_');
    (teams[0], teams[1])
}

/// The outcomes of an event of kind `k` at `path`, as they are written.
pub open spec fn spec_kind_outcome_names(path: Seq<char>, k: EventKind) -> Seq<Seq<char>> {
    match k {
        EventKind::VsMatch(VsMatchKind::WinOrDraw) => seq![
            spec_path_parties(path).0 + "_win"@,
            spec_path_parties(path).1 + "_win"@,
            "draw"@,
        ],
        EventKind::VsMatch(VsMatchKind::Win) => seq![
            spec_path_parties(path).0 + "_win"@,
            spec_path_parties(path).1 + "_win"@,
        ],
        EventKind::Equals(_, _) => seq!["false"@, "true"@],
        EventKind::PriceAbove(_) => seq!["false"@, "true"@],
        _ => seq!["true"@],
    }
}

/// The predicate `<inner>=<value>` at `path`: the inner kind and the index of the
/// outcome named.
pub open spec fn spec_parse_predicate(path: Seq<char>, inner: Seq<char>, value: Seq<char>) -> Option<EventKind> {
    match spec_parse_kind(inner) {
        Some(EventKind::VsMatch(vk)) => {
            let names = spec_kind_outcome_names(path, EventKind::VsMatch(vk));
            if bad_teams(path) {
                None
            } else if value == names[0] {
                Some(EventKind::Equals(Predicated::VsMatch(vk), 0))
            } else if value == names[1] {
                Some(EventKind::Equals(Predicated::VsMatch(vk), 1))
            } else if names.len() == 3 && value == names[2] {
                Some(EventKind::Equals(Predicated::VsMatch(vk), 2))
            } else {
                None
            }
        },
        Some(EventKind::SingleOccurrence) => if value == "true"@ {
            Some(EventKind::Equals(Predicated::SingleOccurrence, 0))
        } else {
            None
        },
        _ => None,
    }
}

/// The kind written `s` after the path `path`: a plain kind, or a predicate
/// `<kind>=<outcome>` naming an outcome of the event of that kind at the path.
pub open spec fn spec_kind_at(path: Seq<char>, s: Seq<char>) -> Option<EventKind> {
    match spec_parse_kind(s) {
        Some(k) => Some(k),
        None => match find(s, '=') {
            Some(eq) => spec_parse_predicate(path, s.take(eq), s.skip(eq + 1)),
            None => None,
        },
    }
}

/// How the kind `k` is written after the path `path`, a predicate with its outcome.
pub open spec fn spec_kind_text(path: Seq<char>, k: EventKind) -> Seq<char> {
    match k {
        EventKind::Equals(p, i) => kind_chars(k) + seq!['='] + spec_kind_outcome_names(
            path,
            predicated_kind(p),
        )[i as int],
        _ => kind_chars(k),
    }
}

/// `digits_<n>` where `<n>` is not a `u8`: `EventKind::from_str` does not return on it.
pub open spec fn is_bad_digits_kind(s: Seq<char>) -> bool {
    let segs = split(s, '_');
    segs.len() == 2 && segs[0] == "digits"@ && parse_u8(segs[1]) is None
}

impl EventKind {
    /// The number of nonces an event of this kind is attested with: one per digit of a
    /// digits event or a price given in digits, one otherwise.
    pub fn n_nonces(&self) -> (n: u8)
        ensures
            n == spec_kind_nonces(*self),
    {
        match self {
            EventKind::Digits(n) => *n,
            EventKind::Price { n_digits } => if *n_digits == 0 {
                1
            } else {
                *n_digits
            },
            _ => 1,
        }
    }

    /// How the kind is written: `vs`, `win`, `occur`, `digits_<n>`, `price`,
    /// `price?n=<n>` or `price_<bound>`; a predicate's inner kind.
    pub fn to_string(&self) -> (s: String)
        ensures
            s@ == kind_chars(*self),
    {
        match self {
            EventKind::VsMatch(VsMatchKind::Win) => string_of("win"),
            EventKind::VsMatch(VsMatchKind::WinOrDraw) => string_of("vs"),
            EventKind::SingleOccurrence => string_of("occur"),
            EventKind::Digits(n) => {
                let mut s = string_of("digits_");
                let d = decimal_string(*n as u64);
                push_str(&mut s, d.as_str());
                s
            },
            EventKind::Price { n_digits } => if *n_digits == 0 {
                string_of("price")
            } else {
                let mut s = string_of("price?n=");
                let d = decimal_string(*n_digits as u64);
                push_str(&mut s, d.as_str());
                s
            },
            EventKind::PriceAbove(b) => {
                let mut s = string_of("price_");
                let d = decimal_string(*b as u64);
                push_str(&mut s, d.as_str());
                s
            },
            EventKind::Equals(Predicated::VsMatch(VsMatchKind::Win), _) => string_of("win"),
            EventKind::Equals(Predicated::VsMatch(VsMatchKind::WinOrDraw), _) => string_of("vs"),
            EventKind::Equals(Predicated::SingleOccurrence, _) => string_of("occur"),
        }
    }

    /// Reads an event kind (a predicate is read with its event id).
    pub fn from_str(event_kind: &str) -> (r: Result<EventKind, EventKindError>)
        requires
            !is_bad_digits_kind(event_kind@),
        ensures
            match r {
                Ok(k) => spec_parse_kind(event_kind@) == Some(k),
                Err(_) => spec_parse_kind(event_kind@) is None,
            },
    {
        let v = chars_of(event_kind);
        match parse_kind_chars(v.as_slice()) {
            Some(k) => Ok(k),
            None => Err(EventKindError::Unknown),
        }
    }
}

/// The number of nonces an event of kind `k` is attested with.
pub open spec fn spec_kind_nonces(k: EventKind) -> u8 {
    match k {
        EventKind::Digits(d) => d,
        EventKind::Price { n_digits } => if n_digits == 0 {
            1u8
        } else {
            n_digits
        },
        _ => 1u8,
    }
}

/// Reads a plain kind from its characters.
fn parse_kind_chars(v: &[char]) -> (r: Option<EventKind>)
    requires
        !is_bad_digits_kind(v@),
    ensures
        r == spec_parse_kind(v@),
{
    proof {
        lemma_kind_literals();
    }
    let segs = split_chars(v, '_');
    if segs.len() == 1 && chars_eq_str(segs[0].as_slice(), "vs") {
        Some(EventKind::VsMatch(VsMatchKind::WinOrDraw))
    } else if segs.len() == 1 && chars_eq_str(segs[0].as_slice(), "win") {
        Some(EventKind::VsMatch(VsMatchKind::Win))
    } else if segs.len() == 1 && chars_eq_str(segs[0].as_slice(), "occur") {
        Some(EventKind::SingleOccurrence)
    } else if segs.len() == 2 && chars_eq_str(segs[0].as_slice(), "digits") {
        match parse_decimal_below(segs[1].as_slice(), 256) {
            Some(n) => Some(EventKind::Digits(n as u8)),
            None => None,
        }
    } else if chars_eq_str(v, "price") {
        Some(EventKind::Price { n_digits: 0 })
    } else if segs.len() == 1 && v.len() >= 8 && chars_eq_str(
        crate::text::sub_chars(v, 0, 8).as_slice(),
        "price?n=",
    ) {
        let rest = crate::text::sub_chars(v, 8, v.len());
        match parse_decimal_below(rest.as_slice(), 256) {
            Some(n) => if n > 0 {
                Some(EventKind::Price { n_digits: n as u8 })
            } else {
                None
            },
            None => None,
        }
    } else if segs.len() == 2 && chars_eq_str(segs[0].as_slice(), "price") {
        match parse_decimal_below(segs[1].as_slice(), 0x1_0000_0000) {
            Some(b) => Some(EventKind::PriceAbove(b as u32)),
            None => None,
        }
    } else {
        None
    }
}

/// Whether the last segment of the path is not two distinct `_`-separated names.
fn bad_teams_exec(path: PathRef<'_>) -> (b: bool)
    ensures
        b == bad_teams(path@),
{
    let lv = chars_of(path.last());
    let teams = split_chars(lv.as_slice(), '_');
    teams.len() != 2 || crate::text::chars_eq(teams[0].as_slice(), teams[1].as_slice())
}

/// `<party>_win`.
fn win_name(party: &[char]) -> (v: Vec<char>)
    ensures
        v@ == party@ + "_win"@,
{
    let mut v: Vec<char> = Vec::new();
    let mut i: usize = 0;
    while i < party.len()
        invariant
            i <= party.len(),
            v@ == party@.take(i as int),
        decreases party.len() - i,
    {
        v.push(party[i]);
        i = i + 1;
    }
    proof {
        reveal_strlit("_win");
    }
    v.push('_');
    v.push('w');
    v.push('i');
    v.push('n');
    assert(v@ =~= party@ + "_win"@);
    v
}

/// Reads the kind written `kind` after the path `path`, a predicate among them.
fn kind_at(path: PathRef<'_>, kind: &str) -> (r: Option<EventKind>)
    requires
        !is_bad_digits_kind(kind@),
    ensures
        r == spec_kind_at(path@, kind@),
{
    proof {
        lemma_kind_literals();
    }
    let v = chars_of(kind);
    if let Some(k) = parse_kind_chars(v.as_slice()) {
        return Some(k);
    }
    let eq = match find_char(v.as_slice(), '=') {
        Some(eq) => eq,
        None => return None,
    };
    proof {
        lemma_find_some(v@, '=');
    }
    let inner = crate::text::sub_chars(v.as_slice(), 0, eq);
    let value = crate::text::sub_chars(v.as_slice(), eq + 1, v.len());
    assert(inner@ =~= kind@.take(eq as int));
    assert(value@ =~= kind@.skip(eq + 1));
    let isegs = split_chars(inner.as_slice(), '_');
    if isegs.len() == 2 && chars_eq_str(isegs[0].as_slice(), "digits") && parse_decimal_below(
        isegs[1].as_slice(),
        256,
    ).is_none() {
        return None;
    }
    match parse_kind_chars(inner.as_slice()) {
        Some(EventKind::VsMatch(vk)) => {
            if bad_teams_exec(path) {
                return None;
            }
            let lv = chars_of(path.last());
            let teams = split_chars(lv.as_slice(), '_');
            let left = win_name(teams[0].as_slice());
            let right = win_name(teams[1].as_slice());
            if crate::text::chars_eq(value.as_slice(), left.as_slice()) {
                Some(EventKind::Equals(Predicated::VsMatch(vk), 0))
            } else if crate::text::chars_eq(value.as_slice(), right.as_slice()) {
                Some(EventKind::Equals(Predicated::VsMatch(vk), 1))
            } else if vk == VsMatchKind::WinOrDraw && chars_eq_str(value.as_slice(), "draw") {
                proof {
                    reveal_strlit("draw");
                }
                Some(EventKind::Equals(Predicated::VsMatch(vk), 2))
            } else {
                proof {
                    reveal_strlit("draw");
                }
                None
            }
        },
        Some(EventKind::SingleOccurrence) => {
            if chars_eq_str(value.as_slice(), "true") {
                Some(EventKind::Equals(Predicated::SingleOccurrence, 0))
            } else {
                None
            }
        },
        _ => None,
    }
}

impl EventKindError {
    pub fn to_message(&self) -> (s: String)
        ensures
            s@ == "unknown event kind"@,
    {
        string_of("unknown event kind")
    }
}

/// The path that the `url` crate reads from a URL (`None` when the text is no URL).
pub uninterp spec fn url_parsed_path(url: Seq<char>) -> Option<Seq<char>>;

/// `url::Url::parse`, then `Url::path`.
///
/// The contract names the path; it states nothing of its characters.
#[verifier::external_body]
fn url_path(url: &str) -> (r: Option<String>)
    ensures
        match r {
            Some(p) => url_parsed_path(url@) == Some(p@),
            None => url_parsed_path(url@) is None,
        },
{
    match url::Url::parse(url) {
        Ok(parsed) => Some(parsed.path().to_string()),
        Err(_) => None,
    }
}

/// The faults that reading an event id can find, as values.
pub enum IdFault {
    NotAnEvent,
    BadFormat,
    UnknownEventKind(Seq<char>),
    MissingEventKind,
}

/// The two parties of the last segment of a `vs`/`win` path are not two distinct names.
pub open spec fn bad_teams(path: Seq<char>) -> bool {
    let teams = split(spec_last(path), '_');
    teams.len() != 2 || teams[0] == teams[1]
}

/// What is wrong with `s` as an event id, beyond its path format (`None`: nothing).
pub open spec fn spec_event_fault(s: Seq<char>) -> Option<IdFault> {
    match spec_strip_event(s) {
        None => Some(IdFault::MissingEventKind),
        Some((path, kind)) => {
            let segs = split(kind, '_');
            if segs.len() == 1 && (segs[0] == "vs"@ || segs[0] == "win"@) && bad_teams(path) {
                Some(IdFault::BadFormat)
            } else if segs.len() == 2 && segs[0] == "digits"@ && parse_u8(segs[1]) is None {
                Some(IdFault::BadFormat)
            } else if spec_kind_at(path, kind) is Some {
                None
            } else if find(kind, '=') matches Some(eq) && (kind.take(eq) == "vs"@ || kind.take(eq)
                == "win"@ || kind.take(eq) == "occur"@) {
                Some(IdFault::BadFormat)
            } else {
                Some(IdFault::UnknownEventKind(kind))
            }
        },
    }
}

/// What `EventId::from_str` finds wrong with `s` (`None`: it is an event id).
pub open spec fn spec_id_fault(s: Seq<char>) -> Option<IdFault> {
    if !valid_path(s) {
        Some(IdFault::BadFormat)
    } else {
        spec_event_fault(s)
    }
}

/// The path part of an event id.
pub open spec fn spec_event_path(s: Seq<char>) -> Seq<char> {
    spec_strip_event(s).unwrap().0
}

/// The kind part of an event id, as written.
pub open spec fn spec_event_kind_str(s: Seq<char>) -> Seq<char> {
    spec_strip_event(s).unwrap().1
}

/// The kind of an event id.
pub open spec fn spec_event_kind(s: Seq<char>) -> EventKind {
    spec_kind_at(spec_event_path(s), spec_event_kind_str(s))->0
}

/// The two parties named by the last segment of a `vs`/`win` event.
pub open spec fn spec_parties(s: Seq<char>) -> (Seq<char>, Seq<char>) {
    spec_path_parties(spec_event_path(s))
}

/// The outcomes of an event, as they are written.
pub open spec fn spec_outcome_names(s: Seq<char>) -> Seq<Seq<char>> {
    spec_kind_outcome_names(spec_event_path(s), spec_event_kind(s))
}

/// An event id built from a path and a kind.
pub open spec fn spec_join_event(path: Seq<char>, kind: EventKind) -> Seq<char> {
    path + seq!['.'] + spec_kind_text(path, kind)
}

/// How many outcomes an event of this kind has (digits and prices: not stated here).
pub open spec fn spec_n_outcomes(k: EventKind) -> nat {
    match k {
        EventKind::VsMatch(VsMatchKind::WinOrDraw) => 3,
        EventKind::VsMatch(VsMatchKind::Win) => 2,
        EventKind::Equals(_, _) => 2,
        EventKind::PriceAbove(_) => 2,
        _ => 1,
    }
}

/// A kind whose outcomes are a list of names: not digits, not a price.
pub open spec fn is_enum_kind(k: EventKind) -> bool {
    !(k is Digits) && !(k is Price)
}

#[derive(Debug, Clone)]
pub enum EventIdError {
    NotAnEvent,
    BadFormat,
    UnknownEventKind(String),
    MissingEventKind,
}

impl View for EventIdError {
    type V = IdFault;

    open spec fn view(&self) -> IdFault {
        match self {
            EventIdError::NotAnEvent => IdFault::NotAnEvent,
            EventIdError::BadFormat => IdFault::BadFormat,
            EventIdError::UnknownEventKind(k) => IdFault::UnknownEventKind(k@),
            EventIdError::MissingEventKind => IdFault::MissingEventKind,
        }
    }
}

/// The message of a fault.
pub open spec fn id_fault_message(f: IdFault) -> Seq<char> {
    match f {
        IdFault::NotAnEvent => "not a valid event id"@,
        IdFault::BadFormat => "badly formatted event id"@,
        IdFault::MissingEventKind => "event id is valid path but doesn't end in '.<event-kind>'"@,
        IdFault::UnknownEventKind(k) => k + " is not a recognized event kind"@,
    }
}

impl EventIdError {
    /// The message that the error displays.
    pub fn to_message(&self) -> (s: String)
        ensures
            s@ == id_fault_message(self@),
    {
        match self {
            EventIdError::NotAnEvent => string_of("not a valid event id"),
            EventIdError::BadFormat => string_of("badly formatted event id"),
            EventIdError::MissingEventKind => string_of(
                "event id is valid path but doesn't end in '.<event-kind>'",
            ),
            EventIdError::UnknownEventKind(k) => {
                let mut s = string_of(k.as_str());
                push_str(&mut s, " is not a recognized event kind");
                s
            },
        }
    }
}

#[derive(Clone, Debug, PartialEq, Hash, Eq, PartialOrd, Ord)]
pub struct EventId(Path);

impl View for EventId {
    type V = Seq<char>;

    closed spec fn view(&self) -> Seq<char> {
        self.0@
    }
}

impl EventId {
    /// A well-formed event id: its kind is known and fits its path.
    pub open spec fn wf(&self) -> bool {
        spec_event_fault(self@) is None
    }

    /// A well-formed event id of a kind with a known number of outcomes.
    pub open spec fn wf_enum(&self) -> bool {
        self.wf() && is_enum_kind(spec_event_kind(self@))
    }

    pub fn as_str(&self) -> (s: &str)
        ensures
            s@ == self@,
    {
        self.0.as_str()
    }

    /// A copy of the id.
    pub fn duplicate(&self) -> (id: EventId)
        ensures
            id == *self,
    {
        EventId(self.0.duplicate())
    }

    /// The UTF-8 encoding of the id.
    pub fn as_bytes(&self) -> (b: &[u8])
        ensures
            b@ == encode_utf8(self@),
    {
        self.0.as_str().as_bytes()
    }

    /// Reads an event id: a valid path whose last segment ends in `.<kind>` (or `?<kind>`).
    pub fn from_str(string: &str) -> (r: Result<EventId, EventIdError>)
        ensures
            match r {
                Ok(id) => spec_id_fault(string@) is None && id@ == string@,
                Err(e) => spec_id_fault(string@) == Some(e@),
            },
    {
        match Path::from_str(string) {
            Ok(path) => EventId::try_from_path(path),
            Err(_) => Err(EventIdError::BadFormat),
        }
    }

    /// Reads the event id of a URL: the URL's path (`None` when `url` is no URL).
    pub fn try_from_url(url: &str) -> (r: Option<Result<EventId, EventIdError>>)
        ensures
            match url_parsed_path(url@) {
                None => r is None,
                Some(p) => r matches Some(res) && match res {
                    Ok(id) => spec_id_fault(p) is None && id@ == p,
                    Err(e) => spec_id_fault(p) == Some(e@),
                },
            },
    {
        match url_path(url) {
            Some(p) => Some(EventId::from_str(p.as_str())),
            None => None,
        }
    }

    /// Checks that a path is an event id.
    pub fn try_from_path(id_as_path: Path) -> (r: Result<EventId, EventIdError>)
        ensures
            match r {
                Ok(id) => spec_event_fault(id_as_path@) is None && id@ == id_as_path@,
                Err(e) => spec_event_fault(id_as_path@) == Some(e@),
            },
    {
        let (path, event_kind) = match id_as_path.as_path_ref().strip_event() {
            Some(pair) => pair,
            None => {
                return Err(EventIdError::MissingEventKind);
            },
        };
        let kv = chars_of(event_kind);
        let segs = split_chars(kv.as_slice(), '_');
        proof {
            lemma_kind_literals();
        }
        if segs.len() == 1 && (chars_eq_str(segs[0].as_slice(), "vs") || chars_eq_str(
            segs[0].as_slice(),
            "win",
        )) && bad_teams_exec(path) {
            return Err(EventIdError::BadFormat);
        }
        if segs.len() == 2 && chars_eq_str(segs[0].as_slice(), "digits") && parse_decimal_below(
            segs[1].as_slice(),
            256,
        ).is_none() {
            return Err(EventIdError::BadFormat);
        }
        if kind_at(path, event_kind).is_none() {
            match find_char(kv.as_slice(), '=') {
                Some(eq) => {
                    proof {
                        lemma_find_some(kv@, '=');
                    }
                    let inner = crate::text::sub_chars(kv.as_slice(), 0, eq);
                    assert(inner@ =~= kv@.take(eq as int));
                    if chars_eq_str(inner.as_slice(), "vs") || chars_eq_str(inner.as_slice(), "win")
                        || chars_eq_str(inner.as_slice(), "occur") {
                        return Err(EventIdError::BadFormat);
                    }
                    return Err(EventIdError::UnknownEventKind(string_of(event_kind)));
                },
                None => {
                    return Err(EventIdError::UnknownEventKind(string_of(event_kind)));
                },
            }
        }
        Ok(EventId(id_as_path))
    }

    /// The path of the event: the id without `.<kind>`.
    pub fn path(&self) -> (p: PathRef<'_>)
        requires
            spec_strip_event(self@) is Some,
        ensures
            p@ == spec_event_path(self@),
    {
        match self.0.as_path_ref().strip_event() {
            Some((path, _)) => path,
            None => {
                assert(false);
                PathRef::root()
            },
        }
    }

    /// The kind of the event.
    pub fn event_kind(&self) -> (k: EventKind)
        requires
            self.wf(),
        ensures
            k == spec_event_kind(self@),
            spec_kind_at(spec_event_path(self@), spec_event_kind_str(self@)) == Some(k),
    {
        let kind = match self.0.as_path_ref().strip_event() {
            Some((_, kind)) => kind,
            None => {
                assert(false);
                "occur"
            },
        };
        let path = self.path();
        proof {
            lemma_fault_free_kind_parses(self@);
        }
        match kind_at(path, kind) {
            Some(k) => k,
            None => {
                assert(false);
                EventKind::SingleOccurrence
            },
        }
    }

    /// The two parties of a `vs` or `win` event.
    pub fn parties(&self) -> (r: Option<(&str, &str)>)
        requires
            self.wf(),
        ensures
            match r {
                Some((l, rt)) => spec_event_kind(self@) is VsMatch && (l@, rt@) == spec_parties(
                    self@,
                ),
                None => !(spec_event_kind(self@) is VsMatch),
            },
    {
        if let EventKind::VsMatch(_) = self.event_kind() {
            let last = self.path().last();
            let lv = chars_of(last);
            proof {
                lemma_fault_free_kind_parses(self@);
            }
            match find_char(lv.as_slice(), '_') {
                Some(i) => {
                    proof {
                        lemma_find_some(lv@, '_');
                        lemma_split_step(lv@, '_', i as int);
                        let rest = lv@.skip(i + 1);
                        lemma_find_some(rest, '_');
                        if find(rest, '_') is Some {
                            let j = find(rest, '_')->0;
                            lemma_split_step(rest, '_', j);
                            crate::path::lemma_split_nonempty(rest.skip(j + 1), '_');
                            assert(false);
                        }
                        lemma_split_none(rest, '_');
                    }
                    let left = last.substring_char(0, i);
                    let right = last.substring_char(i + 1, lv.len());
                    Some((left, right))
                },
                None => {
                    proof {
                        lemma_split_none(lv@, '_');
                    }
                    assert(false);
                    None
                },
            }
        } else {
            None
        }
    }

    pub fn n_outcomes_for_nonce(&self, _nonce_index: usize) -> (n: u32)
        requires
            self.wf_enum(),
        ensures
            n == spec_n_outcomes(spec_event_kind(self@)),
    {
        match self.event_kind() {
            EventKind::VsMatch(kind) => match kind {
                VsMatchKind::WinOrDraw => 3,
                _ => 2,
            },
            EventKind::SingleOccurrence => 1,
            EventKind::Equals(_, _) => 2,
            EventKind::PriceAbove(_) => 2,
            EventKind::Digits(_) => {
                assert(false);
                0
            },
            EventKind::Price { .. } => {
                assert(false);
                0
            },
        }
    }

    pub fn n_outcomes(&self) -> (n: u64)
        requires
            self.wf_enum(),
        ensures
            n == spec_n_outcomes(spec_event_kind(self@)),
    {
        self.n_outcomes_for_nonce(0) as u64
    }

    /// The same path with another kind.
    pub fn replace_kind(&self, kind: EventKind) -> (id: EventId)
        requires
            spec_strip_event(self@) is Some,
            !(kind is Equals),
        ensures
            id@ == spec_join_event(spec_event_path(self@), kind),
    {
        let p = self.path();
        EventId::from_path_and_kind(p.to_path(), kind)
    }

    /// The outcomes of the event, as they are written.
    pub fn descriptor(&self) -> (d: Descriptor)
        requires
            self.wf_enum(),
        ensures
            d.outcomes_view() == Some(spec_outcome_names(self@)),
    {
        match self.event_kind() {
            EventKind::VsMatch(kind) => {
                let (left, right) = match self.parties() {
                    Some(pair) => pair,
                    None => {
                        assert(false);
                        ("", "")
                    },
                };
                let mut l = string_of(left);
                push_str(&mut l, "_win");
                let mut r = string_of(right);
                push_str(&mut r, "_win");
                let mut outcomes: Vec<String> = Vec::new();
                outcomes.push(l);
                outcomes.push(r);
                if let VsMatchKind::WinOrDraw = kind {
                    outcomes.push(string_of("draw"));
                }
                Descriptor::Enum { outcomes }
            },
            EventKind::SingleOccurrence => {
                let mut outcomes: Vec<String> = Vec::new();
                outcomes.push(string_of("true"));
                Descriptor::Enum { outcomes }
            },
            EventKind::Equals(_, _) | EventKind::PriceAbove(_) => {
                let mut outcomes: Vec<String> = Vec::new();
                outcomes.push(string_of("false"));
                outcomes.push(string_of("true"));
                Descriptor::Enum { outcomes }
            },
            EventKind::Digits(_) | EventKind::Price { .. } => {
                assert(false);
                Descriptor::MissingDescriptor
            },
        }
    }

    /// `<path>.<kind>`; a predicate, which is written with the outcome it names, is
    /// made by [`EventId::from_str`].
    pub fn from_path_and_kind(path: Path, kind: EventKind) -> (id: Self)
        requires
            !(kind is Equals),
        ensures
            id@ == spec_join_event(path@, kind),
    {
        let mut s = string_of(path.as_str());
        push_char(&mut s, '.');
        let k = kind.to_string();
        push_str(&mut s, k.as_str());
        assert(s@ =~= path@ + seq!['.'] + kind_chars(kind));
        EventId(Path::from_string_unchecked(s))
    }

    pub fn is_binary(&self) -> (b: bool)
        requires
            self.wf(),
        ensures
            b == (spec_event_kind(self@) == EventKind::VsMatch(VsMatchKind::Win)),
    {
        match self.event_kind() {
            EventKind::VsMatch(kind) => match kind {
                VsMatchKind::Win => true,
                _ => false,
            },
            _ => false,
        }
    }

    pub fn n_nonces(&self) -> (n: u8)
        requires
            self.wf(),
        ensures
            n == spec_kind_nonces(spec_event_kind(self@)),
    {
        self.event_kind().n_nonces()
    }

    /// The `occur` event of a timestamp's path (`Path::from_dt`).
    pub fn occur_from_dt(dt: Timestamp) -> (r: Option<EventId>)
        ensures
            match r {
                Some(id) => chrono_date_time_text(dt.secs, dt.nanos) matches Some(t) && id@ == spec_join_event(
                    seq!['/'] + t,
                    EventKind::SingleOccurrence,
                ),
                None => chrono_date_time_text(dt.secs, dt.nanos) is None,
            },
    {
        match Path::from_dt(dt) {
            Some(p) => Some(Self::from_path_and_kind(p, EventKind::SingleOccurrence)),
            None => None,
        }
    }

    /// The id followed by `=` and `name`.
    pub(crate) fn with_predicate_text(&self, name: &str) -> (id: EventId)
        ensures
            id@ == self@ + seq!['='] + name@,
    {
        let mut s = string_of(self.as_str());
        push_char(&mut s, '=');
        push_str(&mut s, name);
        EventId(Path::from_string_unchecked(s))
    }

    /// The event's id as a path.
    pub fn into_path(self) -> (p: Path)
        ensures
            p@ == self@,
    {
        self.0
    }
}

/// The decimal representation of a number is a non-empty run of digits that reads back as it.
pub proof fn lemma_decimal_reads_back(n: nat)
    ensures
        decimal(n).len() > 0,
        all_digits(decimal(n)),
        digits_value(decimal(n)) == n,
        parse_decimal(decimal(n)) == Some(n),
    decreases n,
{
    let d = decimal(n);
    if n < 10 {
        assert(d == seq![digit_char(n)]);
        assert(d.drop_last() =~= Seq::<char>::empty());
        assert(digit_value(digit_char(n)) == n);
        assert(d.last() == digit_char(n));
        assert(digits_value(d) == digits_value(d.drop_last()) * 10 + digit_value(d.last()));
        assert(digits_value(d.drop_last()) == 0);
    } else {
        lemma_decimal_reads_back(n / 10);
        assert(d.drop_last() == decimal(n / 10));
        assert(digit_value(digit_char(n % 10)) == n % 10);
        assert((n / 10) * 10 + n % 10 == n) by (nonlinear_arith);
        assert(d.last() == digit_char(n % 10));
        assert(digits_value(d) == digits_value(d.drop_last()) * 10 + digit_value(d.last()));
        assert forall|i: int| 0 <= i < d.len() implies is_digit(#[trigger] d[i]) by {
            if i < d.len() - 1 {
                assert(d[i] == decimal(n / 10)[i]);
            }
        }
    }
    assert(is_digit(d[0]));
}

/// The kind names written out, character by character.
proof fn lemma_kind_literals()
    ensures
        "vs"@ == seq!['v', 's'],
        "win"@ == seq!['w', 'i', 'n'],
        "occur"@ == seq!['o', 'c', 'c', 'u', 'r'],
        "digits"@ == seq!['d', 'i', 'g', 'i', 't', 's'],
        "digits_"@ == seq!['d', 'i', 'g', 'i', 't', 's', '_'],
        "price"@ == seq!['p', 'r', 'i', 'c', 'e'],
        "price?n="@ == seq!['p', 'r', 'i', 'c', 'e', '?', 'n', '='],
        "price_"@ == seq!['p', 'r', 'i', 'c', 'e', '_'],
{
    reveal_strlit("price");
    reveal_strlit("price?n=");
    reveal_strlit("price_");
    reveal_strlit("vs");
    reveal_strlit("win");
    reveal_strlit("occur");
    reveal_strlit("digits");
    reveal_strlit("digits_");
}

/// A decimal written after a prefix of `k` characters holds no `/`, `.` or `_`.
proof fn lemma_decimal_tail_plain(prefix: Seq<char>, n: nat)
    ensures
        forall|i: int|
            prefix.len() <= i < (prefix + decimal(n)).len() ==> #[trigger] (prefix + decimal(n))[i]
                != '/' && (prefix + decimal(n))[i] != '.' && (prefix + decimal(n))[i] != '_',
{
    lemma_decimal_reads_back(n);
    let d = decimal(n);
    assert forall|i: int| prefix.len() <= i < (prefix + d).len() implies #[trigger] (prefix + d)[i]
        != '/' && (prefix + d)[i] != '.' && (prefix + d)[i] != '_' by {
        assert((prefix + d)[i] == d[i - prefix.len()]);
        assert(is_digit(d[i - prefix.len()]));
    }
}

/// A kind's written form holds no `/` and no `.`.
pub proof fn lemma_kind_chars_plain(k: EventKind)
    ensures
        forall|i: int|
            0 <= i < kind_chars(k).len() ==> #[trigger] kind_chars(k)[i] != '/' && kind_chars(k)[i]
                != '.',
{
    lemma_kind_literals();
    match k {
        EventKind::Digits(n) => lemma_decimal_tail_plain("digits_"@, n as nat),
        EventKind::Price { n_digits } => if n_digits != 0 {
            lemma_decimal_tail_plain("price?n="@, n_digits as nat);
        },
        EventKind::PriceAbove(b) => lemma_decimal_tail_plain("price_"@, b as nat),
        _ => {},
    }
}

/// `prefix + d` split at `_`, where `prefix` ends in its only `_` and `d` is a decimal.
proof fn lemma_split_kind_with_number(head: Seq<char>, n: nat)
    requires
        forall|j: int| 0 <= j < head.len() ==> head[j] != '_',
    ensures
        split(head + seq!['_'] + decimal(n), '_') == seq![head, decimal(n)],
{
    let d = decimal(n);
    let s = head + seq!['_'] + d;
    lemma_decimal_reads_back(n);
    assert forall|j: int| 0 <= j < head.len() implies s[j] != '_' by {
        assert(s[j] == head[j]);
    }
    crate::text::lemma_find_first(s, '_', head.len() as int);
    lemma_split_step(s, '_', head.len() as int);
    assert(s.take(head.len() as int) =~= head);
    assert(s.skip(head.len() + 1int) =~= d);
    assert forall|j: int| 0 <= j < d.len() implies d[j] != '_' by {
        assert(is_digit(d[j]));
    }
    lemma_split_none(d, '_');
}

/// Writing a plain kind and reading it back gives the same kind.
pub proof fn lemma_kind_roundtrip(k: EventKind)
    requires
        !(k is Equals),
    ensures
        spec_parse_kind(kind_chars(k)) == Some(k),
        !is_bad_digits_kind(kind_chars(k)),
{
    lemma_kind_literals();
    let s = kind_chars(k);
    match k {
        EventKind::Digits(n) => {
            lemma_decimal_reads_back(n as nat);
            let d = decimal(n as nat);
            assert(s =~= "digits"@ + seq!['_'] + d);
            lemma_split_kind_with_number("digits"@, n as nat);
            assert(d[0] != '+') by {
                assert(is_digit(d[0]));
            }
        },
        EventKind::PriceAbove(b) => {
            lemma_decimal_reads_back(b as nat);
            let d = decimal(b as nat);
            assert(s =~= "price"@ + seq!['_'] + d);
            lemma_split_kind_with_number("price"@, b as nat);
            assert(d[0] != '+') by {
                assert(is_digit(d[0]));
            }
            assert(split(s, '_')[0] != "digits"@);
            assert(s != "price"@);
        },
        EventKind::Price { n_digits } => {
            if n_digits != 0 {
                lemma_decimal_reads_back(n_digits as nat);
                let d = decimal(n_digits as nat);
                lemma_decimal_tail_plain("price?n="@, n_digits as nat);
                assert forall|j: int| 0 <= j < s.len() implies s[j] != '_' by {}
                lemma_split_none(s, '_');
                assert(s.take(8) =~= "price?n="@);
                assert(s.skip(8) =~= d);
                assert(d[0] != '+') by {
                    assert(is_digit(d[0]));
                }
                assert(s.len() > 5);
                assert(s != "price"@);
                assert(s != "vs"@ && s != "win"@ && s != "occur"@);
            } else {
                assert forall|j: int| 0 <= j < s.len() implies s[j] != '_' by {}
                lemma_split_none(s, '_');
            }
        },
        _ => {
            assert forall|j: int| 0 <= j < s.len() implies s[j] != '_' by {}
            lemma_split_none(s, '_');
        },
    }
}

/// `<path>.<kind>` splits back into the path and the kind, provided the path's last
/// segment holds no `.`; it is a well-formed event id when the kind fits the path.
pub proof fn lemma_join_event(path: Seq<char>, k: EventKind)
    requires
        !(k is Equals),
        crate::text::rfind(path, '/') is Some,
        find(path.skip(crate::text::rfind(path, '/')->0 + 1), '.') is None,
    ensures
        spec_strip_event(spec_join_event(path, k)) == Some((path, kind_chars(k))),
        spec_event_path(spec_join_event(path, k)) == path,
        spec_event_kind_str(spec_join_event(path, k)) == kind_chars(k),
        (k is VsMatch ==> ({
            let teams = split(spec_last(path), '_');
            teams.len() == 2 && teams[0] != teams[1]
        })) ==> spec_event_fault(spec_join_event(path, k)) is None && spec_event_kind(
            spec_join_event(path, k),
        ) == k,
{
    let s = spec_join_event(path, k);
    let kc = kind_chars(k);
    crate::text::lemma_rfind_some(path, '/');
    let slash = crate::text::rfind(path, '/')->0;
    lemma_kind_chars_plain(k);
    assert forall|j: int| slash < j < s.len() implies s[j] != '/' by {
        if j < path.len() {
            assert(s[j] == path[j]);
        } else if j > path.len() {
            assert(s[j] == kc[j - path.len() - 1]);
        }
    }
    assert(s[slash] == path[slash]);
    crate::text::lemma_rfind_last(s, '/', slash);
    let tail = path.skip(slash + 1);
    let last = s.skip(slash + 1);
    lemma_find_some(tail, '.');
    assert(last =~= tail + seq!['.'] + kc);
    assert forall|j: int| 0 <= j < tail.len() implies last[j] != '.' by {
        assert(last[j] == tail[j]);
    }
    crate::text::lemma_find_first(last, '.', tail.len() as int);
    assert(s.take(slash + 1 + tail.len()) =~= path);
    assert(last.skip(tail.len() + 1int) =~= kc);
    lemma_kind_roundtrip(k);
    lemma_kind_literals();
}

/// The path of an event id ends in a segment without `.`, after its last `/`.
pub proof fn lemma_event_path_plain(s: Seq<char>)
    requires
        spec_strip_event(s) is Some,
    ensures
        crate::text::rfind(spec_event_path(s), '/') is Some,
        find(
            spec_event_path(s).skip(crate::text::rfind(spec_event_path(s), '/')->0 + 1),
            '.',
        ) is None,
{
    crate::text::lemma_rfind_some(s, '/');
    let slash = crate::text::rfind(s, '/')->0;
    let last = s.skip(slash + 1);
    lemma_find_some(last, '.');
    lemma_find_some(last, '?');
    let cut = match find(last, '.') {
        Some(dot) => dot,
        None => find(last, '?')->0,
    };
    let path = s.take(slash + 1 + cut);
    assert(path == spec_event_path(s));
    assert forall|j: int| slash < j < path.len() implies path[j] != '/' by {
        assert(path[j] == s[j]);
    }
    crate::text::lemma_rfind_last(path, '/', slash);
    let tail = path.skip(slash + 1);
    assert forall|j: int| 0 <= j < tail.len() implies #[trigger] tail[j] != '.' by {
        assert(tail[j] == last[j]);
    }
    lemma_find_none(tail, '.');
}

/// An event id's path with a plain kind is a valid path.
pub proof fn lemma_join_valid(s: Seq<char>, k: EventKind)
    requires
        spec_id_fault(s) is None,
        !(k is Equals),
    ensures
        valid_path(spec_join_event(spec_event_path(s), k)),
{
    lemma_fault_free_strips(s);
    crate::text::lemma_rfind_some(s, '/');
    let slash = crate::text::rfind(s, '/')->0;
    let last = s.skip(slash + 1);
    lemma_find_some(last, '.');
    lemma_find_some(last, '?');
    let path = spec_event_path(s);
    assert(path.len() >= 1);
    assert(path[0] == s[0]);
    let j = spec_join_event(path, k);
    lemma_kind_literals();
    let kc = kind_chars(k);
    assert(kc.len() > 0) by {
        if let EventKind::Digits(n) = k {
            assert(kc.len() >= 7);
        }
        if let EventKind::PriceAbove(n) = k {
            assert(kc.len() >= 6);
        }
        if let EventKind::Price { n_digits } = k {
            assert(kc.len() >= 5);
        }
    }
    lemma_kind_chars_plain(k);
    assert(j.last() == kc[kc.len() - 1]);
    assert(j[0] == path[0]);
}

/// The inner event of a predicate id (its path with the inner kind) is a well-formed
/// event id of that kind, and the predicate names one of its outcomes.
pub proof fn lemma_predicate_inner(s: Seq<char>)
    requires
        spec_id_fault(s) is None,
        spec_event_kind(s) is Equals,
    ensures
        ({
            let k = predicated_kind(spec_event_kind(s)->Equals_0);
            let inner = spec_join_event(spec_event_path(s), k);
            &&& spec_id_fault(inner) is None
            &&& spec_event_kind(inner) == k
            &&& spec_event_path(inner) == spec_event_path(s)
            &&& spec_event_kind(s)->Equals_1 < spec_n_outcomes(k)
        }),
{
    lemma_fault_free_kind_parses(s);
    lemma_event_path_plain(s);
    let k = predicated_kind(spec_event_kind(s)->Equals_0);
    let path = spec_event_path(s);
    let kind = spec_event_kind_str(s);
    lemma_kind_literals();
    if spec_parse_kind(kind) is Some {
        assert(false) by {
            let segs = split(kind, '_');
            assert(!(spec_parse_kind(kind)->0 is Equals));
        }
    }
    let eq = find(kind, '=')->0;
    assert(spec_parse_kind(kind.take(eq)) == Some(k));
    lemma_join_event(path, k);
    assert(!bad_teams(path) || !(k is VsMatch));
    lemma_join_valid(s, k);
}

/// No piece of a split holds a character that the split text does not hold.
pub proof fn lemma_split_avoids(s: Seq<char>, c: char, d: char)
    requires
        forall|j: int| 0 <= j < s.len() ==> s[j] != d,
    ensures
        forall|k: int, j: int|
            0 <= k < split(s, c).len() && 0 <= j < split(s, c)[k].len() ==> #[trigger] split(s, c)[k][j] != d,
    decreases s.len(),
{
    lemma_find_some(s, c);
    match find(s, c) {
        Some(i) => {
            let rest = s.skip(i + 1);
            lemma_split_avoids(rest, c, d);
            assert forall|k: int, j: int|
                0 <= k < split(s, c).len() && 0 <= j < split(s, c)[k].len() implies #[trigger] split(s, c)[k][j] != d by {
                if k == 0 {
                    assert(split(s, c)[k][j] == s[j]);
                } else {
                    assert(split(s, c)[k] == split(rest, c)[k - 1]);
                }
            }
        },
        None => {},
    }
}

/// A kind written `vs` or `win` followed by `=` and a name is no plain kind, and its
/// first `=` is the one after the kind.
proof fn lemma_predicate_text_not_plain(k: Seq<char>, name: Seq<char>)
    requires
        k == "vs"@ || k == "win"@,
    ensures
        spec_parse_kind(k + seq!['='] + name) is None,
        find(k + seq!['='] + name, '=') == Some(k.len() as int),
        split(k + seq!['='] + name, '_')[0] != "vs"@,
        split(k + seq!['='] + name, '_')[0] != "win"@,
        split(k + seq!['='] + name, '_')[0] != "digits"@,
{
    lemma_kind_literals();
    let s = k + seq!['='] + name;
    assert(s[k.len() as int] == '=');
    crate::text::lemma_find_first(s, '=', k.len() as int);
    lemma_find_some(s, '_');
    let first = split(s, '_')[0];
    assert(first.len() > k.len() && first[k.len() as int] == '=' && first[0] == s[0]) by {
        match find(s, '_') {
            Some(i) => {
                assert(i > k.len());
                assert(first == s.take(i));
            },
            None => {},
        }
    }
    assert(first != "vs"@ && first != "win"@ && first != "occur"@ && first != "digits"@ && first != "price"@);
    assert(s != "price"@);
    assert(!starts_with(s, "price?n="@));
}

/// A well-formed `vs` or `win` id writes its kind as `vs` or `win`, with two distinct teams.
pub proof fn lemma_vs_kind_written(id: Seq<char>)
    requires
        spec_id_fault(id) is None,
        spec_event_kind(id) is VsMatch,
    ensures
        spec_event_kind_str(id) == "vs"@ || spec_event_kind_str(id) == "win"@,
        !bad_teams(spec_event_path(id)),
        spec_parse_kind(spec_event_kind_str(id)) == Some(spec_event_kind(id)),
{
    lemma_kind_literals();
    lemma_fault_free_kind_parses(id);
    let kstr = spec_event_kind_str(id);
    if spec_parse_kind(kstr) is None {
        assert(false);
    }
    crate::path::lemma_split_nonempty(kstr, '_');
    lemma_find_some(kstr, '_');
    if find(kstr, '_') is Some {
        let i = find(kstr, '_')->0;
        crate::path::lemma_split_nonempty(kstr.skip(i + 1), '_');
    }
}

/// The outcome names of a `vs` or `win` id hold no `/` and no `.`, and are distinct.
pub proof fn lemma_vs_names_plain(id: Seq<char>)
    requires
        spec_id_fault(id) is None,
        spec_event_kind(id) is VsMatch,
    ensures
        ({
            let names = spec_kind_outcome_names(spec_event_path(id), spec_event_kind(id));
            &&& forall|k: int, j: int|
                0 <= k < names.len() && 0 <= j < names[k].len() ==> #[trigger] names[k][j] != '/' && names[k][j] != '.'
            &&& forall|a: int, b: int| 0 <= a < b < names.len() ==> #[trigger] names[a] != #[trigger] names[b]
        }),
{
    reveal_strlit("_win");
    reveal_strlit("draw");
    lemma_vs_kind_written(id);
    lemma_event_path_plain(id);
    let path = spec_event_path(id);
    crate::text::lemma_rfind_some(path, '/');
    let pslash = crate::text::rfind(path, '/')->0;
    let plast = path.skip(pslash + 1);
    assert(spec_last(path) == plast);
    lemma_find_some(plast, '.');
    assert forall|j: int| 0 <= j < plast.len() implies plast[j] != '/' && plast[j] != '.' by {
        assert(plast[j] == path[pslash + 1 + j]);
    }
    lemma_split_avoids(plast, '_', '/');
    lemma_split_avoids(plast, '_', '.');
    let teams = split(plast, '_');
    let names = spec_kind_outcome_names(path, spec_event_kind(id));
    assert forall|k: int, j: int| 0 <= k < names.len() && 0 <= j < names[k].len() implies #[trigger] names[k][j]
        != '/' && names[k][j] != '.' by {
        if k < 2 && j < teams[k].len() {
            assert(names[k][j] == teams[k][j]);
        }
    }
    assert(names[0] != names[1]) by {
        if names[0] == names[1] {
            assert(names[0].take(names[0].len() - 4) =~= teams[0]);
            assert(names[1].take(names[1].len() - 4) =~= teams[1]);
        }
    }
    if names.len() == 3 {
        assert(names[0][names[0].len() - 4] == '_');
        assert(names[1][names[1].len() - 4] == '_');
    }
}

/// Appending `=` and a name without `/` or `.` to an event id keeps its path, and
/// writes its kind followed by `=` and the name.
proof fn lemma_strip_with_predicate(id: Seq<char>, name: Seq<char>)
    requires
        spec_strip_event(id) is Some,
        forall|j: int| 0 <= j < name.len() ==> name[j] != '/' && name[j] != '.',
    ensures
        spec_strip_event(id + seq!['='] + name) == Some(
            (spec_event_path(id), spec_event_kind_str(id) + seq!['='] + name),
        ),
{
    let p = id + seq!['='] + name;
    crate::text::lemma_rfind_some(id, '/');
    let slash = crate::text::rfind(id, '/')->0;
    assert forall|j: int| slash < j < p.len() implies p[j] != '/' by {
        if j < id.len() {
            assert(p[j] == id[j]);
        } else if j > id.len() {
            assert(p[j] == name[j - id.len() - 1]);
        }
    }
    assert(p[slash] == id[slash]);
    crate::text::lemma_rfind_last(p, '/', slash);
    let last = id.skip(slash + 1);
    let plast = p.skip(slash + 1);
    assert(plast =~= last + seq!['='] + name);
    lemma_find_some(last, '.');
    lemma_find_some(last, '?');
    let cut = match find(last, '.') {
        Some(dot) => dot,
        None => find(last, '?')->0,
    };
    match find(last, '.') {
        Some(dot) => {
            assert(plast[dot] == '.');
            assert forall|j: int| 0 <= j < dot implies plast[j] != '.' by {
                assert(plast[j] == last[j]);
            }
            crate::text::lemma_find_first(plast, '.', dot);
        },
        None => {
            assert forall|j: int| 0 <= j < plast.len() implies plast[j] != '.' by {
                if j < last.len() {
                    assert(plast[j] == last[j]);
                } else if j > last.len() {
                    assert(plast[j] == name[j - last.len() - 1]);
                }
            }
            lemma_find_none(plast, '.');
            let q = find(last, '?')->0;
            assert(plast[q] == '?');
            assert forall|j: int| 0 <= j < q implies plast[j] != '?' by {
                assert(plast[j] == last[j]);
            }
            crate::text::lemma_find_first(plast, '?', q);
        },
    }
    assert(p.take(slash + 1 + cut) =~= id.take(slash + 1 + cut));
    assert(plast.skip(cut + 1) =~= last.skip(cut + 1) + seq!['='] + name);
}

/// The id of an equality predicate on an outcome of a `vs` or `win` match reads back:
/// it is well formed, at the match's path, and names the outcome's index.
pub proof fn lemma_predicate_id_parses(id: Seq<char>, v: u64, name: Seq<char>)
    requires
        spec_id_fault(id) is None,
        spec_event_kind(id) is VsMatch,
        v < spec_n_outcomes(spec_event_kind(id)),
        name == spec_kind_outcome_names(spec_event_path(id), spec_event_kind(id))[v as int],
    ensures
        spec_id_fault(id + seq!['='] + name) is None,
        spec_event_path(id + seq!['='] + name) == spec_event_path(id),
        spec_event_kind(id + seq!['='] + name) == EventKind::Equals(
            Predicated::VsMatch(spec_event_kind(id)->VsMatch_0),
            v as u8,
        ),
{
    lemma_kind_literals();
    lemma_vs_kind_written(id);
    lemma_vs_names_plain(id);
    let path = spec_event_path(id);
    let kstr = spec_event_kind_str(id);
    let vk = spec_event_kind(id)->VsMatch_0;
    let names = spec_kind_outcome_names(path, EventKind::VsMatch(vk));
    assert forall|j: int| 0 <= j < name.len() implies name[j] != '/' && name[j] != '.' by {
        assert(names[v as int][j] != '/');
    }
    lemma_fault_free_strips(id);
    lemma_strip_with_predicate(id, name);
    let p = id + seq!['='] + name;
    lemma_predicate_text_not_plain(kstr, name);
    let kp = kstr + seq!['='] + name;
    assert(kp.take(kstr.len() as int) =~= kstr);
    assert(kp.skip(kstr.len() as int + 1) =~= name);
    if v >= 1 {
        assert(names[0] != names[v as int]);
    }
    if v == 2 {
        assert(names[1] != names[2]);
    }
    assert(spec_kind_at(path, kp) == Some(EventKind::Equals(Predicated::VsMatch(vk), v as u8)));
    assert(valid_path(p)) by {
        assert(p[0] == id[0]);
    }
}

/// The price event under a `price_<bound>` id is a well-formed price event at its path.
pub proof fn lemma_price_above_inner(s: Seq<char>)
    requires
        spec_id_fault(s) is None,
        spec_event_kind(s) is PriceAbove,
    ensures
        ({
            let inner = spec_join_event(spec_event_path(s), EventKind::Price { n_digits: 0 });
            &&& spec_id_fault(inner) is None
            &&& spec_event_kind(inner) == EventKind::Price { n_digits: 0 }
            &&& spec_event_path(inner) == spec_event_path(s)
        }),
{
    lemma_fault_free_kind_parses(s);
    lemma_event_path_plain(s);
    lemma_join_event(spec_event_path(s), EventKind::Price { n_digits: 0 });
    lemma_join_valid(s, EventKind::Price { n_digits: 0 });
}

/// An event id that has no fault splits into a path and a kind.
pub proof fn lemma_fault_free_strips(s: Seq<char>)
    requires
        spec_event_fault(s) is None,
    ensures
        spec_strip_event(s) is Some,
{
}

/// An event id that has no fault has a kind that parses.
pub proof fn lemma_fault_free_kind_parses(s: Seq<char>)
    requires
        spec_event_fault(s) is None,
    ensures
        spec_strip_event(s) is Some,
        spec_kind_at(spec_event_path(s), spec_event_kind_str(s)) is Some,
        (spec_event_kind(s) is VsMatch || (spec_event_kind(s) is Equals && spec_event_kind(s)->Equals_0 is VsMatch))
            ==> !bad_teams(spec_event_path(s)),
        spec_event_kind(s) is VsMatch ==> spec_parties(s).0 != spec_parties(s).1,
{
    lemma_kind_literals();
    let (path, kind) = spec_strip_event(s).unwrap();
    if spec_parse_kind(kind) is Some && spec_parse_kind(kind)->0 is VsMatch {
        let segs = split(kind, '_');
        assert(segs.len() == 1 && (segs[0] == "vs"@ || segs[0] == "win"@));
    }
}

impl PrefixPath for EventId {
    fn prefix_path(self, path: PathRef<'_>) -> (r: Self)
        ensures
            r@ == spec_prefix_path(self@, path@),
    {
        EventId(self.0.prefix_path(path))
    }

    fn strip_prefix_path(self, path: PathRef<'_>) -> (r: Self)
        ensures
            r@ == spec_strip_prefix_path(self@, path@),
    {
        EventId(self.0.strip_prefix_path(path))
    }
}

/// An event: its id and when its outcome is expected.
#[derive(Clone, Debug, PartialEq)]
pub struct Event {
    pub id: EventId,
    pub expected_outcome_time: Option<Timestamp>,
}

impl Event {
    /// A copy of the event.
    pub fn duplicate(&self) -> (e: Event)
        ensures
            e == *self,
    {
        Event { id: self.id.duplicate(), expected_outcome_time: self.expected_outcome_time }
    }

    /// The `occur` event of a timestamp, expected at that time.
    pub fn occur_event_from_dt(dt: Timestamp) -> (r: Option<Event>)
        ensures
            match r {
                Some(e) => chrono_date_time_text(dt.secs, dt.nanos) matches Some(t) && e.id@ == spec_join_event(
                    seq!['/'] + t,
                    EventKind::SingleOccurrence,
                ) && e.expected_outcome_time == Some(dt),
                None => chrono_date_time_text(dt.secs, dt.nanos) is None,
            },
    {
        match EventId::occur_from_dt(dt) {
            Some(id) => Some(Event { id, expected_outcome_time: Some(dt) }),
            None => None,
        }
    }

    /// The event of an id, with no expected outcome time.
    pub fn from_id(id: EventId) -> (e: Event)
        ensures
            e.id == id,
            e.expected_outcome_time is None,
    {
        Event { id, expected_outcome_time: None }
    }
}

impl PrefixPath for Event {
    fn prefix_path(self, path: PathRef<'_>) -> (r: Self)
        ensures
            r.id@ == spec_prefix_path(self.id@, path@),
            r.expected_outcome_time == self.expected_outcome_time,
    {
        Event { id: self.id.prefix_path(path), expected_outcome_time: self.expected_outcome_time }
    }

    fn strip_prefix_path(self, path: PathRef<'_>) -> (r: Self)
        ensures
            r.id@ == spec_strip_prefix_path(self.id@, path@),
            r.expected_outcome_time == self.expected_outcome_time,
    {
        Event {
            id: self.id.strip_prefix_path(path),
            expected_outcome_time: self.expected_outcome_time,
        }
    }
}

} // verus!
