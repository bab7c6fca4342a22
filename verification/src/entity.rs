//! Entities as written on the command line: an event id, or `<event id>=<outcome>`.
use vstd::prelude::*;
use crate::event::{spec_event_kind, spec_id_fault, Event, EventId, EventIdError, IdFault};
use crate::outcome::{spec_parse_outcome, Outcome, OutcomeError};
use crate::text::{chars_of, rfind, rfind_char};

verus! {

pub enum Entity {
    Event(Event),
    Outcome(Outcome),
}

#[derive(Clone, Debug)]
pub enum ParseEntityError {
    Event(EventIdError),
    Outcome(OutcomeError),
}

/// `<id>=<outcome>` where `<id>` is a well-formed `digits` or price event: outcomes of
/// such events are numbers, not names, and are not read here.
pub open spec fn is_digits_outcome(s: Seq<char>) -> bool {
    match rfind(s, '=') {
        Some(at) => spec_id_fault(s.take(at)) is None && at != s.len() - 1 && !crate::event::is_enum_kind(
            spec_event_kind(s.take(at)),
        ),
        None => false,
    }
}

/// An outcome written as `<id>=<name>` reads back as the same outcome, when the name
/// is not empty and the text holds no other `=`.
pub proof fn lemma_outcome_text_reads_back(id: Seq<char>, v: u64)
    requires
        spec_id_fault(id) is None,
        crate::event::is_enum_kind(spec_event_kind(id)),
        v < crate::event::spec_n_outcomes(spec_event_kind(id)),
        forall|j: int| 0 <= j < id.len() ==> id[j] != '=',
        crate::outcome::spec_outcome_string(id, v).len() > 0,
        forall|j: int|
            0 <= j < crate::outcome::spec_outcome_string(id, v).len()
                ==> #[trigger] crate::outcome::spec_outcome_string(id, v)[j] != '=',
    ensures
        ({
            let s = id + seq!['='] + crate::outcome::spec_outcome_string(id, v);
            &&& rfind(s, '=') == Some(id.len() as int)
            &&& s.take(id.len() as int) == id
            &&& id.len() != s.len() - 1
            &&& spec_parse_outcome(id, s.skip(id.len() + 1int)) == Ok::<u64, Seq<char>>(v)
            &&& !is_digits_outcome(s)
        }),
{
    let name = crate::outcome::spec_outcome_string(id, v);
    let s = id + seq!['='] + name;
    crate::outcome::lemma_outcome_literals();
    assert forall|j: int| id.len() < j < s.len() implies s[j] != '=' by {
        assert(s[j] == name[j - id.len() - 1]);
    }
    crate::text::lemma_rfind_last(s, '=', id.len() as int);
    assert(s.take(id.len() as int) =~= id);
    assert(s.skip(id.len() + 1int) =~= name);
    crate::outcome::lemma_outcome_string_reads_back(id, v);
}

impl Entity {
    /// Reads an event id, or an event id and an outcome after the last `=`.
    pub fn from_str(string: &str) -> (r: Result<Entity, ParseEntityError>)
        requires
            !is_digits_outcome(string@),
        ensures
            match rfind(string@, '=') {
                Some(at) => {
                    let id = string@.take(at);
                    match r {
                        Ok(Entity::Outcome(o)) => spec_id_fault(id) is None && at != string@.len()
                            - 1 && o.id@ == id && spec_parse_outcome(id, string@.skip(at + 1))
                            == Ok::<u64, Seq<char>>(o.value),
                        Ok(Entity::Event(_)) => false,
                        Err(ParseEntityError::Event(e)) => spec_id_fault(id) == Some(e@),
                        Err(ParseEntityError::Outcome(OutcomeError::BadFormat)) => spec_id_fault(
                            id,
                        ) is None && at == string@.len() - 1,
                        Err(ParseEntityError::Outcome(OutcomeError::Invalid { outcome: bad })) =>
                            spec_id_fault(id) is None && at != string@.len() - 1
                            && spec_parse_outcome(id, string@.skip(at + 1)) == Err::<
                            u64,
                            Seq<char>,
                        >(bad@),
                    }
                },
                None => match r {
                    Ok(Entity::Event(e)) => spec_id_fault(string@) is None && e.id@ == string@
                        && e.expected_outcome_time is None,
                    Ok(Entity::Outcome(_)) => false,
                    Err(ParseEntityError::Event(e)) => spec_id_fault(string@) == Some(e@),
                    Err(ParseEntityError::Outcome(_)) => false,
                },
            },
    {
        let v = chars_of(string);
        match rfind_char(v.as_slice(), '=') {
            Some(at) => {
                proof {
                    crate::text::lemma_rfind_some(v@, '=');
                }
                let id_str = string.substring_char(0, at);
                let event_id = match EventId::from_str(id_str) {
                    Ok(id) => id,
                    Err(e) => {
                        return Err(ParseEntityError::Event(e));
                    },
                };
                if at != v.len() - 1 {
                    let rest = string.substring_char(at + 1, v.len());
                    match Outcome::try_from_id_and_outcome(event_id, rest) {
                        Ok(outcome) => Ok(Entity::Outcome(outcome)),
                        Err(e) => Err(ParseEntityError::Outcome(e)),
                    }
                } else {
                    Err(ParseEntityError::Outcome(OutcomeError::BadFormat))
                }
            },
            None => match EventId::from_str(string) {
                Ok(id) => Ok(Entity::Event(Event::from_id(id))),
                Err(e) => Err(ParseEntityError::Event(e)),
            },
        }
    }
}

} // verus!
