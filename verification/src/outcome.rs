//! Outcomes of events: a value below the event's number of outcomes, and the text
//! that names it (`true`, `BRE_win`, `draw`, ...).
use vstd::prelude::*;
use vstd::utf8::encode_utf8;
use crate::event::{
    is_enum_kind, spec_event_kind, spec_n_outcomes, spec_outcome_names, spec_parties,
    EventId, EventKind, VsMatchKind,
};
use crate::path::{spec_prefix_path, spec_strip_prefix_path, PathRef, PrefixPath};
use crate::text::{
    chars_eq, chars_eq_str, chars_of, ends_with, push_char, push_str, strip_suffix,
    strip_suffix_chars, string_from, string_of,
};
use crate::time::Timestamp;

verus! {

/// The value that the text `o` names for the event `id`, or the text found invalid.
pub open spec fn spec_parse_outcome(id: Seq<char>, o: Seq<char>) -> Result<u64, Seq<char>> {
    let (left, right) = spec_parties(id);
    match spec_event_kind(id) {
        EventKind::SingleOccurrence => if o == "true"@ {
            Ok(0)
        } else {
            Err(o)
        },
        EventKind::VsMatch(VsMatchKind::WinOrDraw) => if o == "draw"@ {
            Ok(2)
        } else {
            match strip_suffix(o, "_win"@) {
                Some(w) => if w == left {
                    Ok(0)
                } else if w == right {
                    Ok(1)
                } else {
                    Err(w)
                },
                None => Err(o),
            }
        },
        EventKind::VsMatch(VsMatchKind::Win) => match strip_suffix(o, "_win"@) {
            Some(w) => if w == left {
                Ok(0)
            } else if w == right {
                Ok(1)
            } else {
                Err(w)
            },
            None => Err(o),
        },
        EventKind::Equals(_, _) | EventKind::PriceAbove(_) => if o == "true"@ {
            Ok(1)
        } else if o == "false"@ {
            Ok(0)
        } else {
            Err(o)
        },
        EventKind::Digits(_) | EventKind::Price { .. } => Err(o),
    }
}

/// The text that names the value `v` of the event `id`.
pub open spec fn spec_outcome_string(id: Seq<char>, v: u64) -> Seq<char> {
    let (left, right) = spec_parties(id);
    match spec_event_kind(id) {
        EventKind::SingleOccurrence => "true"@,
        EventKind::VsMatch(VsMatchKind::WinOrDraw) => if v == 0 {
            left + "_win"@
        } else if v == 1 {
            right + "_win"@
        } else {
            "draw"@
        },
        EventKind::Equals(_, _) | EventKind::PriceAbove(_) => if v == 0 {
            "false"@
        } else {
            "true"@
        },
        _ => if v == 0 {
            left + "_win"@
        } else {
            right + "_win"@
        },
    }
}

/// The eight bytes of `v`, most significant first.
pub open spec fn be_bytes(v: u64) -> Seq<u8> {
    seq![
        ((v >> 56u64) & 0xffu64) as u8,
        ((v >> 48u64) & 0xffu64) as u8,
        ((v >> 40u64) & 0xffu64) as u8,
        ((v >> 32u64) & 0xffu64) as u8,
        ((v >> 24u64) & 0xffu64) as u8,
        ((v >> 16u64) & 0xffu64) as u8,
        ((v >> 8u64) & 0xffu64) as u8,
        (v & 0xffu64) as u8,
    ]
}

/// What an attestation signs: the id, `!`, then the value in eight big-endian bytes.
pub open spec fn spec_attestation_string(id: Seq<char>, v: u64) -> Seq<u8> {
    encode_utf8(id) + seq![33u8] + be_bytes(v)
}

#[derive(Clone, Debug, PartialEq)]
pub struct Outcome {
    pub id: EventId,
    pub value: u64,
}

#[derive(Clone, Debug, PartialEq)]
pub enum OutcomeError {
    Invalid { outcome: String },
    BadFormat,
}

impl OutcomeError {
    /// The message that the error displays.
    pub fn to_message(&self) -> (s: String)
        ensures
            match self {
                OutcomeError::Invalid { outcome } => s@ == "entity ‘"@ + outcome@
                    + "’ refers to something not part of the event"@,
                OutcomeError::BadFormat => s@ == "badly formatted outcome"@,
            },
    {
        match self {
            OutcomeError::Invalid { outcome } => {
                let mut s = string_of("entity ‘");
                push_str(&mut s, outcome.as_str());
                push_str(&mut s, "’ refers to something not part of the event");
                s
            },
            OutcomeError::BadFormat => string_of("badly formatted outcome"),
        }
    }
}

/// The outcomes of a `win` event.
pub enum Win {
    Left,
    Right,
}

/// The outcomes of a `vs` event.
pub enum WinOrDraw {
    Left,
    Right,
    Draw,
}

/// The outcome of an `occur` event.
pub enum Occur {
    Occurred,
}

impl Win {
    pub fn try_from(value: u64) -> (r: Result<Win, ()>)
        ensures
            match r {
                Ok(Win::Left) => value == 0,
                Ok(Win::Right) => value == 1,
                Err(_) => value >= 2,
            },
    {
        match value {
            0 => Ok(Win::Left),
            1 => Ok(Win::Right),
            _ => Err(()),
        }
    }

    pub fn value(&self) -> (v: u64)
        ensures
            v == match self {
                Win::Left => 0u64,
                Win::Right => 1u64,
            },
    {
        match self {
            Win::Left => 0,
            Win::Right => 1,
        }
    }
}

impl WinOrDraw {
    pub fn try_from(value: u64) -> (r: Result<WinOrDraw, ()>)
        ensures
            match r {
                Ok(WinOrDraw::Left) => value == 0,
                Ok(WinOrDraw::Right) => value == 1,
                Ok(WinOrDraw::Draw) => value == 2,
                Err(_) => value >= 3,
            },
    {
        match value {
            0 => Ok(WinOrDraw::Left),
            1 => Ok(WinOrDraw::Right),
            2 => Ok(WinOrDraw::Draw),
            _ => Err(()),
        }
    }

    pub fn value(&self) -> (v: u64)
        ensures
            v == match self {
                WinOrDraw::Left => 0u64,
                WinOrDraw::Right => 1u64,
                WinOrDraw::Draw => 2u64,
            },
    {
        match self {
            WinOrDraw::Left => 0,
            WinOrDraw::Right => 1,
            WinOrDraw::Draw => 2,
        }
    }
}

impl Occur {
    pub fn try_from(value: u64) -> (r: Result<Occur, ()>)
        ensures
            match r {
                Ok(Occur::Occurred) => value == 0,
                Err(_) => value >= 1,
            },
    {
        match value {
            0 => Ok(Occur::Occurred),
            _ => Err(()),
        }
    }

    pub fn value(&self) -> (v: u64)
        ensures
            v == 0,
    {
        0
    }
}

impl EventId {
    /// The predicate that the outcome `assert_value` of this event is the one: the id
    /// followed by `=` and that outcome's name.
    pub fn predicate_eq(&self, assert_value: u64) -> (id: EventId)
        requires
            self.wf_enum(),
            assert_value < spec_n_outcomes(spec_event_kind(self@)),
        ensures
            id@ == self@ + seq!['='] + spec_outcome_string(self@, assert_value),
    {
        let name = Outcome { id: self.duplicate(), value: assert_value }.outcome_string();
        self.with_predicate_text(name.as_str())
    }
}

impl Outcome {
    /// The last outcome of the event.
    pub fn test_instance(event_id: &EventId) -> (o: Outcome)
        requires
            event_id.wf_enum(),
        ensures
            o.id == *event_id,
            o.value == spec_n_outcomes(spec_event_kind(event_id@)) - 1,
    {
        Outcome { id: event_id.duplicate(), value: event_id.n_outcomes() - 1 }
    }

    /// Reads the text of an outcome of the event `id`.
    pub fn try_from_id_and_outcome(id: EventId, outcome: &str) -> (r: Result<Outcome, OutcomeError>)
        requires
            id.wf_enum(),
        ensures
            match r {
                Ok(o) => o.id == id && spec_parse_outcome(id@, outcome@) == Ok::<u64, Seq<char>>(
                    o.value,
                ),
                Err(OutcomeError::Invalid { outcome: bad }) => spec_parse_outcome(id@, outcome@)
                    == Err::<u64, Seq<char>>(bad@),
                Err(OutcomeError::BadFormat) => false,
            },
    {
        let ov = chars_of(outcome);
        let value: u64 = match id.event_kind() {
            EventKind::SingleOccurrence => {
                if chars_eq_str(ov.as_slice(), "true") {
                    0
                } else {
                    return Err(OutcomeError::Invalid { outcome: string_of(outcome) });
                }
            },
            EventKind::VsMatch(kind) => {
                let (left, right) = match id.parties() {
                    Some(pair) => pair,
                    None => {
                        assert(false);
                        return Err(OutcomeError::BadFormat);
                    },
                };
                match kind {
                    VsMatchKind::WinOrDraw => {
                        if chars_eq_str(ov.as_slice(), "draw") {
                            2
                        } else {
                            match strip_suffix_chars(ov.as_slice(), "_win") {
                                Some(winner) => {
                                    if chars_eq_str(winner.as_slice(), left) {
                                        0
                                    } else if chars_eq_str(winner.as_slice(), right) {
                                        1
                                    } else {
                                        return Err(
                                            OutcomeError::Invalid {
                                                outcome: string_from(winner.as_slice()),
                                            },
                                        );
                                    }
                                },
                                None => {
                                    return Err(
                                        OutcomeError::Invalid { outcome: string_of(outcome) },
                                    );
                                },
                            }
                        }
                    },
                    VsMatchKind::Win => {
                        match strip_suffix_chars(ov.as_slice(), "_win") {
                            Some(winner) => {
                                if chars_eq_str(winner.as_slice(), left) {
                                    0
                                } else if chars_eq_str(winner.as_slice(), right) {
                                    1
                                } else {
                                    return Err(
                                        OutcomeError::Invalid {
                                            outcome: string_from(winner.as_slice()),
                                        },
                                    );
                                }
                            },
                            None => {
                                return Err(OutcomeError::Invalid { outcome: string_of(outcome) });
                            },
                        }
                    },
                }
            },
            EventKind::Equals(_, _) | EventKind::PriceAbove(_) => {
                if chars_eq_str(ov.as_slice(), "true") {
                    1
                } else if chars_eq_str(ov.as_slice(), "false") {
                    0
                } else {
                    return Err(OutcomeError::Invalid { outcome: string_of(outcome) });
                }
            },
            EventKind::Digits(_) | EventKind::Price { .. } => {
                assert(false);
                return Err(OutcomeError::BadFormat);
            },
        };
        Ok(Outcome { value, id })
    }

    /// The text that names the outcome.
    pub fn outcome_string(&self) -> (s: String)
        requires
            self.id.wf_enum(),
            self.value < spec_n_outcomes(spec_event_kind(self.id@)),
        ensures
            s@ == spec_outcome_string(self.id@, self.value),
    {
        let mut s = String::new();
        self.write_outcome_string(&mut s);
        s
    }

    /// Appends the text that names the outcome.
    pub fn write_outcome_string(&self, f: &mut String)
        requires
            self.id.wf_enum(),
            self.value < spec_n_outcomes(spec_event_kind(self.id@)),
        ensures
            final(f)@ == old(f)@ + spec_outcome_string(self.id@, self.value),
    {
        match self.id.event_kind() {
            EventKind::SingleOccurrence => {
                push_str(f, "true");
            },
            EventKind::VsMatch(kind) => {
                let (left, right) = match self.id.parties() {
                    Some(pair) => pair,
                    None => {
                        assert(false);
                        ("", "")
                    },
                };
                match kind {
                    VsMatchKind::WinOrDraw => {
                        match WinOrDraw::try_from(self.value) {
                            Ok(WinOrDraw::Left) => {
                                push_str(f, left);
                                push_str(f, "_win");
                                assert(f@ =~= old(f)@ + (left@ + "_win"@));
                            },
                            Ok(WinOrDraw::Right) => {
                                push_str(f, right);
                                push_str(f, "_win");
                                assert(f@ =~= old(f)@ + (right@ + "_win"@));
                            },
                            _ => {
                                push_str(f, "draw");
                            },
                        }
                    },
                    VsMatchKind::Win => {
                        match Win::try_from(self.value) {
                            Ok(Win::Left) => {
                                push_str(f, left);
                                push_str(f, "_win");
                                assert(f@ =~= old(f)@ + (left@ + "_win"@));
                            },
                            _ => {
                                push_str(f, right);
                                push_str(f, "_win");
                                assert(f@ =~= old(f)@ + (right@ + "_win"@));
                            },
                        }
                    },
                }
            },
            EventKind::Equals(_, _) | EventKind::PriceAbove(_) => {
                if self.value == 0 {
                    push_str(f, "false");
                } else {
                    push_str(f, "true");
                }
            },
            EventKind::Digits(_) | EventKind::Price { .. } => {
                assert(false);
            },
        }
    }

    /// The outcome of the predicate that the event's outcome is `assert_value`: `true`
    /// (1) when this outcome is that one, `false` (0) otherwise.
    pub fn predicate_eq(&self, assert_value: u64) -> (o: Outcome)
        requires
            self.id.wf_enum(),
            assert_value < spec_n_outcomes(spec_event_kind(self.id@)),
        ensures
            o.id@ == self.id@ + seq!['='] + spec_outcome_string(self.id@, assert_value),
            o.value == (if assert_value == self.value { 1u64 } else { 0u64 }),
    {
        Outcome {
            id: self.id.predicate_eq(assert_value),
            value: if assert_value == self.value {
                1
            } else {
                0
            },
        }
    }

    /// The outcome's value as the one index that the olivia-v1 scheme attests to.
    pub fn attestation_indexes(&self) -> (v: Vec<u32>)
        requires
            self.value <= u32::MAX,
        ensures
            v@ == seq![self.value as u32],
    {
        let mut v: Vec<u32> = Vec::new();
        v.push(self.value as u32);
        v
    }

    /// What an attestation to this outcome signs.
    pub fn attestation_string(&self) -> (att: Vec<u8>)
        ensures
            att@ == spec_attestation_string(self.id@, self.value),
    {
        let bytes = self.id.as_bytes();
        let mut att: Vec<u8> = Vec::new();
        let mut i: usize = 0;
        while i < bytes.len()
            invariant
                i <= bytes@.len(),
                bytes@ == encode_utf8(self.id@),
                att@ == bytes@.take(i as int),
            decreases bytes@.len() - i,
        {
            att.push(bytes[i]);
            i = i + 1;
            assert(att@ == bytes@.take(i as int));
        }
        assert(bytes@.take(bytes@.len() as int) == bytes@);
        att.push(33u8);
        let v = self.value;
        att.push(((v >> 56u64) & 0xffu64) as u8);
        att.push(((v >> 48u64) & 0xffu64) as u8);
        att.push(((v >> 40u64) & 0xffu64) as u8);
        att.push(((v >> 32u64) & 0xffu64) as u8);
        att.push(((v >> 24u64) & 0xffu64) as u8);
        att.push(((v >> 16u64) & 0xffu64) as u8);
        att.push(((v >> 8u64) & 0xffu64) as u8);
        att.push((v & 0xffu64) as u8);
        assert(att@ =~= spec_attestation_string(self.id@, self.value));
        att
    }

    /// `<id>=<outcome>`.
    pub fn to_string(&self) -> (s: String)
        requires
            self.id.wf_enum(),
            self.value < spec_n_outcomes(spec_event_kind(self.id@)),
        ensures
            s@ == self.id@ + seq!['='] + spec_outcome_string(self.id@, self.value),
    {
        let mut s = string_of(self.id.as_str());
        push_char(&mut s, '=');
        self.write_outcome_string(&mut s);
        s
    }
}

/// The outcome literals written out, character by character.
pub proof fn lemma_outcome_literals()
    ensures
        "true"@ == seq!['t', 'r', 'u', 'e'],
        "draw"@ == seq!['d', 'r', 'a', 'w'],
        "_win"@ == seq!['_', 'w', 'i', 'n'],
        "false"@ == seq!['f', 'a', 'l', 's', 'e'],
{
    reveal_strlit("false");
    reveal_strlit("true");
    reveal_strlit("draw");
    reveal_strlit("_win");
}

/// Naming an outcome of an event and reading the name back gives the outcome.
pub proof fn lemma_outcome_string_reads_back(id: Seq<char>, v: u64)
    requires
        is_enum_kind(spec_event_kind(id)),
        spec_event_kind(id) is VsMatch ==> spec_parties(id).0 != spec_parties(id).1,
        v < spec_n_outcomes(spec_event_kind(id)),
    ensures
        spec_parse_outcome(id, spec_outcome_string(id, v)) == Ok::<u64, Seq<char>>(v),
{
    lemma_outcome_literals();
    let (left, right) = spec_parties(id);
    if spec_event_kind(id) == EventKind::VsMatch(VsMatchKind::WinOrDraw) {
        if v < 2 {
            let w = if v == 0 {
                left
            } else {
                right
            };
            let o = w + "_win"@;
            assert(o.len() >= 4);
            if o == "draw"@ {
                assert(o[o.len() - 4] == '_');
                assert(w.len() == 0);
                assert(o[0] == '_');
            }
            assert(o.skip(o.len() - 4) =~= "_win"@);
            assert(o.take(o.len() - 4) =~= w);
        }
    } else if spec_event_kind(id) == EventKind::VsMatch(VsMatchKind::Win) {
        let w = if v == 0 {
            left
        } else {
            right
        };
        let o = w + "_win"@;
        assert(o.skip(o.len() - 4) =~= "_win"@);
        assert(o.take(o.len() - 4) =~= w);
    }
}

/// Reading the name of an outcome of an event and naming the value gives the name back.
pub proof fn lemma_parsed_outcome_names_back(id: Seq<char>, o: Seq<char>)
    requires
        is_enum_kind(spec_event_kind(id)),
        spec_parse_outcome(id, o) is Ok,
    ensures
        spec_parse_outcome(id, o)->Ok_0 < spec_n_outcomes(spec_event_kind(id)),
        spec_outcome_string(id, spec_parse_outcome(id, o)->Ok_0) == o,
{
    lemma_outcome_literals();
    if spec_event_kind(id) == EventKind::VsMatch(VsMatchKind::WinOrDraw) && o != "draw"@ {
        let w = strip_suffix(o, "_win"@)->0;
        assert(w + "_win"@ =~= o);
    } else if spec_event_kind(id) == EventKind::VsMatch(VsMatchKind::Win) {
        let w = strip_suffix(o, "_win"@)->0;
        assert(w + "_win"@ =~= o);
    }
}

/// The names that the descriptor of an event lists are its outcomes' names, in value
/// order.
pub proof fn lemma_descriptor_lists_outcomes(id: Seq<char>, v: u64)
    requires
        is_enum_kind(spec_event_kind(id)),
        v < spec_n_outcomes(spec_event_kind(id)),
    ensures
        spec_outcome_names(id).len() == spec_n_outcomes(spec_event_kind(id)),
        spec_outcome_names(id)[v as int] == spec_outcome_string(id, v),
{
}

impl PrefixPath for Outcome {
    fn prefix_path(self, path: PathRef<'_>) -> (r: Self)
        ensures
            r.id@ == spec_prefix_path(self.id@, path@),
            r.value == self.value,
    {
        Outcome { id: self.id.prefix_path(path), value: self.value }
    }

    fn strip_prefix_path(self, path: PathRef<'_>) -> (r: Self)
        ensures
            r.id@ == spec_strip_prefix_path(self.id@, path@),
            r.value == self.value,
    {
        Outcome { id: self.id.strip_prefix_path(path), value: self.value }
    }
}

/// An outcome as it arrives from a source: the event id, the outcome's name and maybe a time.
#[derive(Debug, Clone, PartialEq)]
pub struct WireEventOutcome {
    pub event_id: EventId,
    pub outcome: String,
    pub time: Option<Timestamp>,
}

/// An outcome and the time it was decided.
#[derive(Debug, Clone, PartialEq)]
pub struct StampedOutcome {
    pub outcome: Outcome,
    pub time: Timestamp,
}

impl StampedOutcome {
    /// The test outcome of an event (`Outcome::test_instance`), stamped with the
    /// current time.
    pub fn test_instance(event_id: &EventId) -> (s: StampedOutcome)
        requires
            event_id.wf_enum(),
        ensures
            s.outcome.id == *event_id,
            s.outcome.value == spec_n_outcomes(spec_event_kind(event_id@)) - 1,
    {
        StampedOutcome { outcome: Outcome::test_instance(event_id), time: crate::time::now() }
    }

    /// Reads a wire outcome; one without a time is stamped `now`.
    pub fn try_from_wire_at(outcome: WireEventOutcome, now: Timestamp) -> (r: Result<
        StampedOutcome,
        OutcomeError,
    >)
        requires
            outcome.event_id.wf_enum(),
        ensures
            match r {
                Ok(s) => s.outcome.id == outcome.event_id && spec_parse_outcome(
                    outcome.event_id@,
                    outcome.outcome@,
                ) == Ok::<u64, Seq<char>>(s.outcome.value) && s.time == match outcome.time {
                    Some(t) => t,
                    None => now,
                },
                Err(OutcomeError::Invalid { outcome: bad }) => spec_parse_outcome(
                    outcome.event_id@,
                    outcome.outcome@,
                ) == Err::<u64, Seq<char>>(bad@),
                Err(OutcomeError::BadFormat) => false,
            },
    {
        let parsed = Outcome::try_from_id_and_outcome(outcome.event_id, outcome.outcome.as_str())?;
        let time = match outcome.time {
            Some(t) => t,
            None => now,
        };
        Ok(StampedOutcome { outcome: parsed, time })
    }

    /// Reads a wire outcome; one without a time is stamped with the current time.
    pub fn try_from_wire(outcome: WireEventOutcome) -> (r: Result<StampedOutcome, OutcomeError>)
        requires
            outcome.event_id.wf_enum(),
        ensures
            match r {
                Ok(s) => s.outcome.id == outcome.event_id && spec_parse_outcome(
                    outcome.event_id@,
                    outcome.outcome@,
                ) == Ok::<u64, Seq<char>>(s.outcome.value) && (outcome.time matches Some(t)
                    ==> s.time == t),
                Err(OutcomeError::Invalid { outcome: bad }) => spec_parse_outcome(
                    outcome.event_id@,
                    outcome.outcome@,
                ) == Err::<u64, Seq<char>>(bad@),
                Err(OutcomeError::BadFormat) => false,
            },
    {
        let now = crate::time::now();
        StampedOutcome::try_from_wire_at(outcome, now)
    }
}

impl PrefixPath for StampedOutcome {
    fn prefix_path(self, path: PathRef<'_>) -> (r: Self)
        ensures
            r.outcome.id@ == spec_prefix_path(self.outcome.id@, path@),
            r.outcome.value == self.outcome.value,
            r.time == self.time,
    {
        StampedOutcome { outcome: self.outcome.prefix_path(path), time: self.time }
    }

    fn strip_prefix_path(self, path: PathRef<'_>) -> (r: Self)
        ensures
            r.outcome.id@ == spec_strip_prefix_path(self.outcome.id@, path@),
            r.outcome.value == self.outcome.value,
            r.time == self.time,
    {
        StampedOutcome { outcome: self.outcome.strip_prefix_path(path), time: self.time }
    }
}

} // verus!
