use olivia::describe::{
    event_html_str, event_short_str, long_path_name_str, outcome_str, path_html_str, path_short_str,
};
use olivia::describe::soccer;
use olivia::path::Path;

/// Describes a soccer path given in full, as the path's segments after `/soccer`.
fn soccer_path_short(path: &str) -> Option<String> {
    let path = Path::from_str(path).ok()?;
    let segments = path.as_path_ref().segments();
    let (first, rest) = segments.split_first()?;
    if first != "soccer" {
        return None;
    }
    let rest: Vec<&str> = rest.iter().map(|s| s.as_str()).collect();
    soccer::path_short(&rest)
}

#[test]
fn test_path_short() {
    assert_eq!(soccer_path_short("/soccer"), Some("Soccer competitions".into()));
    assert_eq!(soccer_path_short("/soccer/EPL"), Some("The English Premier League".into()));
    assert_eq!(
        soccer_path_short("/soccer/EPL/match"),
        Some("Matches in the English Premier League".into())
    );
    assert_eq!(
        soccer_path_short("/soccer/EPL/match/2020-08-14"),
        Some("Matches in the English Premier League set to be played on 2020-08-14".into())
    );
    assert_eq!(
        soccer_path_short("/soccer/EPL/match/2020-08-14/BRE_ARS"),
        Some("Brentford vs Arsenal in the English Premier League on 2020-08-14".into())
    );
}

#[test]
fn test_x_path() {
    assert_eq!(path_short_str("/x/BitMEX"), Some("exchange rates and prices on BitMEX".into()));
    assert_eq!(path_short_str("/x/BitMEX/BXBT"), Some("BXBT on BitMEX".into()));
    assert_eq!(
        path_short_str("/x/BitMEX/BXBT/2021-10-05T5:00:00"),
        Some("BXBT on BitMEX at 2021-10-05T5:00:00".into())
    );
}

#[test]
fn competition_match_outcome_descriptions() {
    let event_id = "/s/EPL/match/2021-08-13/BRE_ARS.vs";
    assert_eq!(
        outcome_str(event_id, "BRE_win").unwrap(),
        "Brentford beats Arsenal in their English Premier League match on 2021-08-13"
    );
    assert_eq!(
        outcome_str(event_id, "ARS_win").unwrap(),
        "Arsenal beats Brentford in their English Premier League match on 2021-08-13"
    );
    assert_eq!(
        outcome_str(event_id, "draw").unwrap(),
        "Brentford and Arsenal draw in their English Premier League match on 2021-08-13"
    );
    assert_eq!(outcome_str(event_id, "CHE_win"), None);
    assert_eq!(outcome_str("/foo/bar", "true"), None);
}

#[test]
fn generic_outcome_description_quotes_the_outcome() {
    assert_eq!(
        outcome_str("/foo/bar.occur", "true").unwrap(),
        "the /foo/bar has transpired is \"true\""
    );
}

#[test]
fn event_short_descriptions() {
    assert_eq!(
        event_short_str("/s/EPL/match/2021-08-13/BRE_ARS.vs").unwrap(),
        "result of English Premier League match Brentford vs Arsenal on 2021-08-13"
    );
    assert_eq!(
        event_short_str("/s/EPL/match/2021-08-13/BRE_ARS.win").unwrap(),
        "winner of English Premier League match Brentford vs Arsenal on 2021-08-13"
    );
    assert_eq!(event_short_str("/foo/bar/FOO_BAR.vs").unwrap(), "result of FOO vs BAR in /foo/bar");
    assert_eq!(
        event_short_str("/time/2020-09-30T08:00:00.occur").unwrap(),
        "time 2020-09-30T08:00:00 has passed"
    );
    assert_eq!(event_short_str("/foo/bar.occur").unwrap(), "/foo/bar has transpired");
    assert_eq!(event_short_str("/foo/bar"), None);
}

#[test]
fn event_html_descriptions() {
    assert_eq!(
        event_html_str("/s/EPL/match/2021-08-13/BRE_ARS.vs").unwrap(),
        "English Premier League match Brentford vs Arsenal on 2021-08-13. \
         If Brentford wins the oracle will attest <b class='oracle-outcome'>BRE_win</b>. \
         If Arsenal wins the oracle will attest <b class='oracle-outcome'>ARS_win</b>. \
         Otherwise the oracle will attest <b class='oracle-outcome'>draw</b>"
    );
    assert_eq!(
        event_html_str("/random/2020-09-30T08:00:00/heads_tails.vs").unwrap(),
        "This event has no real world meaning. The outcome will randomly be selected from \
         the <b>3</b> possibilities at <b>2020-09-30T08:00:00</b>"
    );
    assert_eq!(event_html_str("/foo/bar.occur").unwrap(), "/foo/bar has transpired.");
}

#[test]
fn long_path_names() {
    assert_eq!(long_path_name_str("/s").unwrap(), "Sport");
    assert_eq!(long_path_name_str("/s/EPL").unwrap(), "English Premier League");
    assert_eq!(long_path_name_str("/s/EPL/match/2021-08-13/BRE_ARS").unwrap(), "Brentford vs Arsenal");
    assert_eq!(long_path_name_str("/x").unwrap(), "Exchange rates");
    assert_eq!(long_path_name_str("/foo/bar").unwrap(), "bar");
}

#[test]
fn competition_path_descriptions() {
    assert_eq!(path_short_str("/s").unwrap(), "sport and Esport competitions");
    assert_eq!(path_short_str("/s/EPL/match").unwrap(), "English Premier League matches");
    assert_eq!(
        path_short_str("/s/EPL/match/2021-08-13/BRE_ARS").unwrap(),
        "English Premier League match Brentford vs Arsenal on 2021-08-13"
    );
    assert_eq!(path_short_str("/s/EPL/match/2021-08-13/BRE_ARS/x"), None);
    assert_eq!(path_short_str("/foo"), None);
}

#[test]
fn path_html_descriptions() {
    assert_eq!(
        path_html_str("/x/BitMEX", "").unwrap(),
        "Exchange rates and prices on <b><a href=\"https://bitmex.com\">BitMEX</a></b>"
    );
    assert_eq!(
        path_html_str("/x/BitMEX/BXBT/2021-10-05T5:00:00", "").unwrap(),
        "<b><a href=\"https://www.bitmex.com/app/index/.BXBT\">BXBT</a></b> on \
         <b><a href=\"https://bitmex.com\">BitMEX</a></b> at <b>2021-10-05T5:00:00</b>"
    );
    assert_eq!(path_html_str("/x/Kraken/XBT", "").unwrap(), "<b>XBT</b> on <b>Kraken</b>");
    assert_eq!(path_html_str("/random", "<p>chance</p>").unwrap(), "<p>chance</p>");
    assert_eq!(path_html_str("/time", "").unwrap(), "events that mark the passage of time");
    assert_eq!(path_html_str("/nowhere", ""), None);
    assert_eq!(path_html_str("no/slash", ""), None);
}

#[test]
fn test_describe_outcome_for_competition_match() {
    let event_id = "/s/EPL/match/2021-08-13/BRE_ARS.vs";
    let predicated = "/s/EPL/match/2021-08-13/BRE_ARS.vs=ARS_win";
    let predicated_draw = "/s/EPL/match/2021-08-13/BRE_ARS.vs=draw";
    assert_eq!(
        outcome_str(&event_id, "BRE_win").unwrap(),
        "Brentford beats Arsenal in their English Premier League match on 2021-08-13"
    );
    assert_eq!(
        outcome_str(&event_id, "ARS_win").unwrap(),
        "Arsenal beats Brentford in their English Premier League match on 2021-08-13"
    );
    assert_eq!(
        outcome_str(&event_id, "draw").unwrap(),
        "Brentford and Arsenal draw in their English Premier League match on 2021-08-13"
    );
    assert_eq!(
        outcome_str(&predicated, "true").unwrap(),
        "Arsenal beats Brentford in their English Premier League match on 2021-08-13"
    );
    assert_eq!(
        outcome_str(&predicated, "false").unwrap(),
        "Arsenal does not beat Brentford in their English Premier League match on 2021-08-13"
    );
    assert_eq!(
        outcome_str(&predicated_draw, "true").unwrap(),
        "Brentford and Arsenal draw in their English Premier League match on 2021-08-13"
    );
    assert_eq!(
        outcome_str(&predicated_draw, "false").unwrap(),
        "Brentford and Arsenal do not draw in their English Premier League match on 2021-08-13"
    );
}

#[test]
fn test_price_event_short() {
    assert_eq!(
        event_short_str("/x/BitMEX/BXBT/2021-10-05T5:00:00.price"),
        Some("price of BXBT on BitMEX at 2021-10-05T5:00:00".into())
    );

    assert_eq!(
        event_short_str("/x/BitMEX/BXBT/2021-10-05T5:00:00.price?n=20"),
        Some("price of BXBT on BitMEX at 2021-10-05T5:00:00".into())
    );
}

#[test]
fn test_bounded_price_event() {
    assert_eq!(
        event_short_str("/x/BitMEX/BXBT/2021-10-05T5:00:00.price_10000"),
        Some("assertion that the price of BXBT on BitMEX at 2021-10-05T5:00:00 is greater than 10000".into())
    );
}

#[test]
fn predicate_descriptions() {
    assert_eq!(
        event_short_str("/s/EPL/match/2021-08-13/BRE_ARS.vs=ARS_win").unwrap(),
        "assertion that Arsenal beats Brentford in their English Premier League match on 2021-08-13"
    );
    assert_eq!(
        outcome_str("/x/BitMEX/BXBT/2021-10-05T5:00:00.price_10000", "false").unwrap(),
        "the price of BXBT on BitMEX at 2021-10-05T5:00:00 is not above 10000"
    );
    assert_eq!(event_short_str("/foo/bar.price").unwrap(), "price of /foo/bar");
    assert_eq!(
        event_html_str("/x/BitMEX/BXBT/2021-10-05T5:00:00.price").unwrap(),
        "price of <b><a href=\"https://www.bitmex.com/app/index/.BXBT\">BXBT</a></b> on \
         <b><a href=\"https://bitmex.com\">BitMEX</a></b> at <b>2021-10-05T5:00:00</b>"
    );
    assert_eq!(
        event_html_str("/foo/bar.occur=true").unwrap(),
        "Whether the /foo/bar has transpired is \"true\".The oracle will attest to \
         <b class='oracle-outcome'>true</b> if the outcome of \
         <a class='oracle-event-id' href='/foo/bar.occur'>/foo/bar.occur</a> is \
         <b class='oracle-outcome'>true</b>. Otherwise <b class='oracle-outcome'>false</b>"
    );
}
