use olivia::entity::Entity;
use olivia::event::EventId;
use olivia::outcome::{Outcome, OutcomeError, WinOrDraw};
use olivia::hex::hex_val;

#[test]
fn outcome_names_read_back() {
    let vs = EventId::from_str("/foo/bar/FOO_BAR.vs").unwrap();
    for (name, value) in [("FOO_win", 0u64), ("BAR_win", 1), ("draw", 2)] {
        let o = Outcome::try_from_id_and_outcome(vs.clone(), name).unwrap();
        assert_eq!(o.value, value);
        assert_eq!(o.outcome_string(), name);
        assert_eq!(o.to_string(), format!("/foo/bar/FOO_BAR.vs={}", name));
    }
    let win = EventId::from_str("/foo/bar/FOO_BAR.win").unwrap();
    assert_eq!(Outcome::try_from_id_and_outcome(win.clone(), "BAR_win").unwrap().value, 1);
    assert!(Outcome::try_from_id_and_outcome(win, "draw").is_err());
    let occur = EventId::from_str("/foo/bar.occur").unwrap();
    assert_eq!(Outcome::try_from_id_and_outcome(occur.clone(), "true").unwrap().value, 0);
    match Outcome::try_from_id_and_outcome(occur, "false") {
        Err(OutcomeError::Invalid { outcome }) => assert_eq!(outcome, "false"),
        _ => panic!("expected an invalid outcome"),
    }
    match Outcome::try_from_id_and_outcome(vs, "BAZ_win") {
        Err(OutcomeError::Invalid { outcome }) => assert_eq!(outcome, "BAZ"),
        _ => panic!("expected an invalid outcome"),
    }
}

#[test]
fn attestation_string_is_id_bang_value() {
    let o = Outcome { id: EventId::from_str("/a.occur").unwrap(), value: 258 };
    let mut expected = b"/a.occur!".to_vec();
    expected.extend_from_slice(&258u64.to_be_bytes());
    assert_eq!(o.attestation_string(), expected);
    assert_eq!(o.attestation_indexes(), vec![258u32]);
}

#[test]
fn entities_parse() {
    assert!(matches!(Entity::from_str("/foo/bar.occur"), Ok(Entity::Event(_))));
    match Entity::from_str("/foo/bar.occur=true") {
        Ok(Entity::Outcome(o)) => assert_eq!(o.value, 0),
        _ => panic!("expected an outcome"),
    }
    assert!(Entity::from_str("/foo/bar.occur=false").is_err());
}

#[test]
fn hex_values() {
    assert_eq!(hex_val(b'a').unwrap(), 10);
    assert_eq!(hex_val(b'F').unwrap(), 15);
    assert_eq!(hex_val(b'7').unwrap(), 7);
    assert!(hex_val(b'g').is_err());
}

#[test]
fn predicate_outcome() {
    let outcome = Outcome {
        id: EventId::from_str("/foo/bar/FOO_BAR.vs").unwrap(),
        value: WinOrDraw::Draw.value(),
    };
    assert_eq!(
        outcome.predicate_eq(WinOrDraw::Left.value()),
        Outcome {
            id: EventId::from_str("/foo/bar/FOO_BAR.vs=FOO_win").unwrap(),
            value: false as u64
        }
    );
    assert_eq!(
        outcome.predicate_eq(WinOrDraw::Right.value()),
        Outcome {
            id: EventId::from_str("/foo/bar/FOO_BAR.vs=BAR_win").unwrap(),
            value: false as u64
        }
    );
    assert_eq!(
        outcome.predicate_eq(WinOrDraw::Draw.value()),
        Outcome {
            id: EventId::from_str("/foo/bar/FOO_BAR.vs=draw").unwrap(),
            value: true as u64
        }
    );
}
