use olivia::entity::Entity;
use olivia::event::{EventId, EventIdError, EventKind, Predicated, VsMatchKind};
use olivia::outcome::Occur;
use olivia::path::{Path, PathRef, PrefixPath};
use olivia::time::Timestamp;

#[test]
fn event_id_from_str() {
    assert!(EventId::from_str("/foo/bar.occur").is_ok());
    assert!(EventId::from_str("foo/bar.occur").is_err());
    assert!(EventId::from_str("/foo/bar.occur/").is_err());
    assert!(EventId::from_str("/foo.occur").is_ok());
    assert!(EventId::from_str("/foo/bar.occur").is_ok());
    assert!(EventId::from_str("/foo/bar/baz.occur").is_ok());
    assert!(EventId::from_str("/foo/23/52.occur").is_ok());
    assert!(EventId::from_str("/foo/bar/FOO_BAR.vs").is_ok());
    assert!(EventId::from_str("/foo/bar/FOO-BAR.vs").is_err());
    assert!(EventId::from_str("/foo.occur").is_ok());
    assert!(EventId::from_str("/test/one/two/3.occur").is_ok());
}

#[test]
fn path_from_str() {
    assert!(Path::from_str("/foo/bar").is_ok());
    assert!(Path::from_str("/foo/bar/").is_err());
    assert!(Path::from_str("foo/bar").is_err());
    assert!(Path::from_str("/").is_ok());
    assert!(Path::from_str("/").unwrap().as_path_ref().is_root())
}

#[test]
fn event_id_parent() {
    let event_id = EventId::from_str("/one/two/three.occur").unwrap();
    assert_eq!(event_id.path().as_str(), "/one/two/three");
    assert_eq!(event_id.path().parent().unwrap().as_str(), "/one/two");
    assert_eq!(event_id.path().parent().unwrap().parent().unwrap().as_str(), "/one",);
    assert_eq!(
        event_id.path().parent().unwrap().parent().unwrap().parent().unwrap().as_str(),
        "/"
    );
}

#[test]
fn event_id_from_url() {
    assert_eq!(
        EventId::try_from_url("http://oracle.com/foo/bar.occur").unwrap().unwrap(),
        EventId::from_str("/foo/bar.occur").unwrap()
    );
}

#[test]
fn event_id_from_text_that_is_no_url() {
    assert!(EventId::try_from_url("not a url").is_none());
    assert!(EventId::try_from_url("http://oracle.com/foo/bar").unwrap().is_err());
}

#[test]
fn prefix_path() {
    assert_eq!(
        Path::root().prefix_path(PathRef::from_str_unchecked("/foo")),
        Path::from_str("/foo").unwrap()
    );
    assert_eq!(
        Path::from_str("/bar").unwrap().prefix_path(PathRef::from_str_unchecked("/foo")),
        Path::from_str("/foo/bar").unwrap()
    );
    assert_eq!(
        Path::from_str("/bar").unwrap().prefix_path(PathRef::root()),
        Path::from_str("/bar").unwrap()
    );
}

#[test]
fn segments() {
    assert_eq!(
        Path::from_str("/foo/bar").unwrap().as_path_ref().segments(),
        vec!["foo".to_string(), "bar".to_string()]
    )
}

#[test]
fn strip_prefix_undoes_prefix() {
    let p = Path::from_str("/bar/baz").unwrap();
    let prefixed = p.duplicate().prefix_path(PathRef::from_str_unchecked("/foo"));
    assert_eq!(prefixed.as_str(), "/foo/bar/baz");
    assert_eq!(prefixed.strip_prefix_path(PathRef::from_str_unchecked("/foo")), p);
}

#[test]
fn is_parent_of_ancestors_only() {
    let child = PathRef::from_str_unchecked("/a/b/c");
    assert!(PathRef::root().is_parent_of(child));
    assert!(PathRef::from_str_unchecked("/a/b").is_parent_of(child));
    assert!(child.is_parent_of(child));
    assert!(!PathRef::from_str_unchecked("/a/c").is_parent_of(child));
    assert!(!PathRef::from_str_unchecked("/a/b/c/d").is_parent_of(child));
}

#[test]
fn event_id_errors() {
    assert!(matches!(EventId::from_str("/foo/bar"), Err(EventIdError::MissingEventKind)));
    match EventId::from_str("/foo/bar.nope") {
        Err(EventIdError::UnknownEventKind(k)) => assert_eq!(k, "nope"),
        _ => panic!("expected an unknown kind"),
    }
    assert!(matches!(EventId::from_str("/foo/A_A.vs"), Err(EventIdError::BadFormat)));
    assert_eq!(
        EventIdError::UnknownEventKind("nope".to_string()).to_message(),
        "nope is not a recognized event kind"
    );
}

#[test]
fn event_kinds() {
    let id = EventId::from_str("/foo/bar/FOO_BAR.vs").unwrap();
    assert_eq!(id.event_kind(), EventKind::VsMatch(VsMatchKind::WinOrDraw));
    assert_eq!(id.n_outcomes(), 3);
    assert_eq!(id.parties(), Some(("FOO", "BAR")));
    let win = id.replace_kind(EventKind::VsMatch(VsMatchKind::Win));
    assert_eq!(win.as_str(), "/foo/bar/FOO_BAR.win");
    assert_eq!(win.n_outcomes(), 2);
    assert_eq!(EventKind::from_str("digits_7").unwrap(), EventKind::Digits(7));
    assert_eq!(EventKind::Digits(7).to_string(), "digits_7");
    assert!(EventId::from_str("/foo/bar.digits_300").is_err());
}

#[test]
fn occur_from_dt_writes_the_date_and_time() {
    // 2020-09-30T08:00:00 UTC
    let dt = Timestamp { secs: 1601452800, nanos: 0 };
    let id = EventId::occur_from_dt(dt).unwrap();
    assert_eq!(id.as_str(), "/2020-09-30T08:00:00.occur");
    assert_eq!(Path::from_dt(dt).unwrap().as_str(), "/2020-09-30T08:00:00");
}

#[test]
fn test_parse_entity() {
    match Entity::from_str("/foo/bar?occur").unwrap() {
        Entity::Event(event) => {
            assert_eq!(EventId::from_str("/foo/bar?occur").unwrap(), event.id)
        }
        _ => panic!(),
    }

    match Entity::from_str("/foo/bar?occur=true").unwrap() {
        Entity::Outcome(outcome) => {
            assert_eq!(outcome.id, EventId::from_str("/foo/bar?occur").unwrap());
            assert_eq!(outcome.value, Occur::Occurred.value());
        }
        _ => panic!(),
    }
}

#[test]
fn question_mark_separates_the_kind_without_a_dot() {
    let id = EventId::from_str("/foo/bar?occur").unwrap();
    assert_eq!(id.path().as_str(), "/foo/bar");
    assert_eq!(id.event_kind(), EventKind::SingleOccurrence);
    let priced = EventId::from_str("/x/BitMEX/BXBT/2021-10-05T5:00:00.price?n=20").unwrap();
    assert_eq!(priced.event_kind(), EventKind::Price { n_digits: 20 });
    assert_eq!(priced.path().as_str(), "/x/BitMEX/BXBT/2021-10-05T5:00:00");
}

#[test]
fn price_and_predicate_kinds() {
    assert_eq!(
        EventId::from_str("/x/BitMEX/BXBT/2021-10-05T5:00:00.price").unwrap().event_kind(),
        EventKind::Price { n_digits: 0 }
    );
    assert_eq!(
        EventId::from_str("/x/BitMEX/BXBT/2021-10-05T5:00:00.price_10000").unwrap().event_kind(),
        EventKind::PriceAbove(10000)
    );
    assert_eq!(
        EventId::from_str("/s/EPL/match/2021-08-13/BRE_ARS.vs=ARS_win").unwrap().event_kind(),
        EventKind::Equals(Predicated::VsMatch(VsMatchKind::WinOrDraw), 1)
    );
    assert_eq!(
        EventId::from_str("/s/EPL/match/2021-08-13/BRE_ARS.vs=draw").unwrap().event_kind(),
        EventKind::Equals(Predicated::VsMatch(VsMatchKind::WinOrDraw), 2)
    );
    assert_eq!(
        EventId::from_str("/foo/bar.occur=true").unwrap().event_kind(),
        EventKind::Equals(Predicated::SingleOccurrence, 0)
    );
    let id = EventId::from_str("/foo/BLUE_RED.vs=BLUE_win").unwrap();
    assert_eq!(id.n_outcomes(), 2);
    assert!(matches!(
        EventId::from_str("/s/EPL/match/2021-08-13/BRE_ARS.vs=CHE_win"),
        Err(EventIdError::BadFormat)
    ));
    assert!(matches!(EventId::from_str("/foo/bar.occur=false"), Err(EventIdError::BadFormat)));
    assert!(matches!(EventId::from_str("/foo/bar.price?n=0"), Err(EventIdError::UnknownEventKind(_))));
    assert_eq!(EventKind::Price { n_digits: 20 }.to_string(), "price?n=20");
    assert_eq!(EventKind::PriceAbove(7).to_string(), "price_7");
}
