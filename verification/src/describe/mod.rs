//! Human-readable descriptions of paths, events and outcomes.
use vstd::prelude::*;
use crate::event::{
    is_enum_kind, predicated_kind, spec_event_kind, spec_event_path, spec_id_fault, spec_join_event,
    spec_n_outcomes, spec_outcome_names, spec_parties, EventId, EventKind, Predicated, VsMatchKind,
};
use crate::node::NodeKind;
use crate::outcome::{spec_outcome_string, Outcome};
use crate::path::{spec_parent, spec_segments, Path, PathRef};
use crate::text::{
    chars_eq_str, chars_of, decimal, decimal_string, parse_decimal, parse_decimal_below, push_str,
    split, split_chars, str_eq, string_from, string_of, strip_suffix,
};

pub mod soccer;

verus! {

/// The full name of a competition, or its code when it is not known.
pub open spec fn spec_lookup_competition(name: Seq<char>) -> Seq<char> {
    if name == "EPL"@ {
        "English Premier League"@
    } else {
        name
    }
}

/// The full name of a competition, or its code when it is not known.
pub fn lookup_competition(name: &str) -> (r: &str)
    ensures
        r@ == spec_lookup_competition(name@),
{
    if str_eq(name, "EPL") {
        "English Premier League"
    } else {
        name
    }
}

/// The full name of a team of a competition, or its code when it is not known.
pub open spec fn spec_lookup_team(competition: Seq<char>, name: Seq<char>) -> Seq<char> {
    if competition != "EPL"@ {
        name
    } else if name == "BRE"@ {
        "Brentford"@
    } else if name == "ARS"@ {
        "Arsenal"@
    } else if name == "MUN"@ {
        "Manchested United"@
    } else if name == "LEE"@ {
        "Leeds United"@
    } else if name == "BUR"@ {
        "Burnley"@
    } else if name == "BHA"@ {
        "Brighton and Hove Albion"@
    } else if name == "CHE"@ {
        "Chelsea"@
    } else if name == "CRY"@ {
        "Crystal Palace"@
    } else if name == "EVE"@ {
        "Everton"@
    } else if name == "SOU"@ {
        "Southampton"@
    } else if name == "LEI"@ {
        "Leicester City"@
    } else if name == "WOL"@ {
        "Wolverhampton Wanderers"@
    } else if name == "WAT"@ {
        "Watford"@
    } else if name == "AVL"@ {
        "Aston Villa"@
    } else if name == "NOR"@ {
        "Norwich City"@
    } else if name == "LIV"@ {
        "Liverpool"@
    } else if name == "NEW"@ {
        "Newcastle United"@
    } else if name == "WHU"@ {
        "West Ham United"@
    } else if name == "TOT"@ {
        "Tottenham Hotspur"@
    } else if name == "MCI"@ {
        "Manchester City"@
    } else {
        name
    }
}

/// The full name of a team of a competition, or its code when it is not known.
pub fn lookup_team<'a>(competition: &str, name: &'a str) -> (r: &'a str)
    ensures
        r@ == spec_lookup_team(competition@, name@),
{
    if !str_eq(competition, "EPL") {
        name
    } else if str_eq(name, "BRE") {
        "Brentford"
    } else if str_eq(name, "ARS") {
        "Arsenal"
    } else if str_eq(name, "MUN") {
        "Manchested United"
    } else if str_eq(name, "LEE") {
        "Leeds United"
    } else if str_eq(name, "BUR") {
        "Burnley"
    } else if str_eq(name, "BHA") {
        "Brighton and Hove Albion"
    } else if str_eq(name, "CHE") {
        "Chelsea"
    } else if str_eq(name, "CRY") {
        "Crystal Palace"
    } else if str_eq(name, "EVE") {
        "Everton"
    } else if str_eq(name, "SOU") {
        "Southampton"
    } else if str_eq(name, "LEI") {
        "Leicester City"
    } else if str_eq(name, "WOL") {
        "Wolverhampton Wanderers"
    } else if str_eq(name, "WAT") {
        "Watford"
    } else if str_eq(name, "AVL") {
        "Aston Villa"
    } else if str_eq(name, "NOR") {
        "Norwich City"
    } else if str_eq(name, "LIV") {
        "Liverpool"
    } else if str_eq(name, "NEW") {
        "Newcastle United"
    } else if str_eq(name, "WHU") {
        "West Ham United"
    } else if str_eq(name, "TOT") {
        "Tottenham Hotspur"
    } else if str_eq(name, "MCI") {
        "Manchester City"
    } else {
        name
    }
}

/// The description of a path, from its segments.
pub open spec fn spec_path_short(segs: Seq<Seq<char>>) -> Option<Seq<char>> {
    let n = segs.len();
    if n >= 1 && segs[0] == "s"@ {
        if n == 1 {
            Some("sport and Esport competitions"@)
        } else if n == 2 {
            Some(spec_lookup_competition(segs[1]))
        } else if segs[2] != "match"@ {
            None
        } else if n == 3 {
            Some(spec_lookup_competition(segs[1]) + " matches"@)
        } else if n == 4 {
            Some(spec_lookup_competition(segs[1]) + " matches set to be played on "@ + segs[3])
        } else if n == 5 {
            let teams = split(segs[4], '_');
            if teams.len() < 2 {
                None
            } else {
                Some(spec_lookup_competition(segs[1]) + " match "@ + spec_lookup_team(
                    segs[1],
                    teams[0],
                ) + " vs "@ + spec_lookup_team(segs[1], teams[1]) + " on "@ + segs[3])
            }
        } else {
            None
        }
    } else if n == 1 && segs[0] == "random"@ {
        Some("events with a random outcome chosen by the oracle"@)
    } else if n == 1 && segs[0] == "time"@ {
        Some("events that mark the passage of time"@)
    } else if n >= 2 && segs[0] == "time"@ {
        Some("events that indicate when "@ + segs[1] + " has passed"@)
    } else if n >= 2 && segs[0] == "random"@ {
        Some("events whose outcome will be randomly chosen at "@ + segs[1])
    } else if n == 1 && segs[0] == "x"@ {
        Some("exchange rates and prices"@)
    } else if n == 2 && segs[0] == "x"@ {
        Some("exchange rates and prices on "@ + segs[1])
    } else if n == 4 && segs[0] == "x"@ && spec_datetime_parses(segs[3]) {
        Some(segs[2] + " on "@ + segs[1] + " at "@ + segs[3])
    } else if n == 3 && segs[0] == "x"@ {
        Some(segs[2] + " on "@ + segs[1])
    } else {
        None
    }
}

/// The two pieces before and after the first `_` of a teams segment, when there are two.
pub open spec fn spec_team_codes(teams: Seq<char>) -> Option<(Seq<char>, Seq<char>)> {
    let t = split(teams, '_');
    if t.len() < 2 {
        None
    } else {
        Some((t[0], t[1]))
    }
}

/// Appends the full names of the two teams of a teams segment, `None` when it has fewer
/// than two.
fn team_names(competition: &str, teams: &str) -> (r: Option<(String, String)>)
    ensures
        match r {
            Some((l, rt)) => spec_team_codes(teams@) matches Some((lc, rc)) && l@ == spec_lookup_team(
                competition@,
                lc,
            ) && rt@ == spec_lookup_team(competition@, rc),
            None => spec_team_codes(teams@) is None,
        },
{
    let tv = chars_of(teams);
    let t = split_chars(tv.as_slice(), '_');
    if t.len() < 2 {
        return None;
    }
    let lc = string_from(t[0].as_slice());
    let rc = string_from(t[1].as_slice());
    let l = string_of(lookup_team(competition, lc.as_str()));
    let r = string_of(lookup_team(competition, rc.as_str()));
    Some((l, r))
}

/// Describes a path.
pub fn path_short(path: PathRef<'_>) -> (r: Option<String>)
    ensures
        match r {
            Some(s) => spec_path_short(spec_segments(path@)) == Some(s@),
            None => spec_path_short(spec_segments(path@)) is None,
        },
{
    let segs = path.segments();
    let n = segs.len();
    if n >= 1 && str_eq(segs[0].as_str(), "s") {
        if n == 1 {
            return Some(string_of("sport and Esport competitions"));
        }
        let competition = segs[1].as_str();
        if n == 2 {
            return Some(string_of(lookup_competition(competition)));
        }
        if !str_eq(segs[2].as_str(), "match") {
            return None;
        }
        if n == 3 {
            let mut s = string_of(lookup_competition(competition));
            push_str(&mut s, " matches");
            return Some(s);
        }
        if n == 4 {
            let mut s = string_of(lookup_competition(competition));
            push_str(&mut s, " matches set to be played on ");
            push_str(&mut s, segs[3].as_str());
            return Some(s);
        }
        if n == 5 {
            let (left, right) = match team_names(competition, segs[4].as_str()) {
                Some(pair) => pair,
                None => {
                    return None;
                },
            };
            let mut s = string_of(lookup_competition(competition));
            push_str(&mut s, " match ");
            push_str(&mut s, left.as_str());
            push_str(&mut s, " vs ");
            push_str(&mut s, right.as_str());
            push_str(&mut s, " on ");
            push_str(&mut s, segs[3].as_str());
            return Some(s);
        }
        return None;
    }
    if n == 1 && str_eq(segs[0].as_str(), "random") {
        return Some(string_of("events with a random outcome chosen by the oracle"));
    }
    if n == 1 && str_eq(segs[0].as_str(), "time") {
        return Some(string_of("events that mark the passage of time"));
    }
    if n >= 2 && str_eq(segs[0].as_str(), "time") {
        let mut s = string_of("events that indicate when ");
        push_str(&mut s, segs[1].as_str());
        push_str(&mut s, " has passed");
        return Some(s);
    }
    if n >= 2 && str_eq(segs[0].as_str(), "random") {
        let mut s = string_of("events whose outcome will be randomly chosen at ");
        push_str(&mut s, segs[1].as_str());
        return Some(s);
    }
    if n == 1 && str_eq(segs[0].as_str(), "x") {
        return Some(string_of("exchange rates and prices"));
    }
    if n == 2 && str_eq(segs[0].as_str(), "x") {
        let mut s = string_of("exchange rates and prices on ");
        push_str(&mut s, segs[1].as_str());
        return Some(s);
    }
    if n == 4 && str_eq(segs[0].as_str(), "x") && DateTime::parse(segs[3].as_str()).is_some() {
        let mut s = string_of(segs[2].as_str());
        push_str(&mut s, " on ");
        push_str(&mut s, segs[1].as_str());
        push_str(&mut s, " at ");
        push_str(&mut s, segs[3].as_str());
        return Some(s);
    }
    if n == 3 && str_eq(segs[0].as_str(), "x") {
        let mut s = string_of(segs[2].as_str());
        push_str(&mut s, " on ");
        push_str(&mut s, segs[1].as_str());
        return Some(s);
    }
    None
}

/// Describes the path written in `path`, `None` when it is not a path or has no description.
pub fn path_short_str(path: &str) -> (r: Option<String>)
    ensures
        match r {
            Some(s) => crate::path::valid_path(path@) && spec_path_short(spec_segments(path@))
                == Some(s@),
            None => !crate::path::valid_path(path@) || spec_path_short(spec_segments(path@)) is None,
        },
{
    let path = match Path::from_str(path) {
        Ok(p) => p,
        Err(_) => {
            return None;
        },
    };
    path_short(path.as_path_ref())
}

/// The web address of an exchange.
pub open spec fn spec_exchange_url(exchange: Seq<char>) -> Option<Seq<char>> {
    if exchange == "BitMEX"@ {
        Some("https://bitmex.com"@)
    } else if exchange == "Binance"@ {
        Some("https://binance.com"@)
    } else if exchange == "FTX"@ {
        Some("https://ftx.com"@)
    } else {
        None
    }
}

/// The web address of an exchange.
pub fn exchange_url(exchange: &str) -> (r: Option<&'static str>)
    ensures
        match r {
            Some(u) => spec_exchange_url(exchange@) == Some(u@),
            None => spec_exchange_url(exchange@) is None,
        },
{
    if str_eq(exchange, "BitMEX") {
        Some("https://bitmex.com")
    } else if str_eq(exchange, "Binance") {
        Some("https://binance.com")
    } else if str_eq(exchange, "FTX") {
        Some("https://ftx.com")
    } else {
        None
    }
}

/// An HTML link to `url` reading `text`.
pub open spec fn spec_link(url: Seq<char>, text: Seq<char>) -> Seq<char> {
    "<a href=\""@ + url + "\">"@ + text + "</a>"@
}

fn link(url: &str, text: &str) -> (s: String)
    ensures
        s@ == spec_link(url@, text@),
{
    let mut s = string_of("<a href=\"");
    push_str(&mut s, url);
    push_str(&mut s, "\">");
    push_str(&mut s, text);
    push_str(&mut s, "</a>");
    s
}

/// The exchange's name, linked to its web address when it has one.
pub open spec fn spec_exchange_link(exchange: Seq<char>) -> Seq<char> {
    match spec_exchange_url(exchange) {
        Some(url) => spec_link(url, exchange),
        None => exchange,
    }
}

/// The exchange's name, linked to its web address when it has one.
pub fn exchange_link(exchange: &str) -> (s: String)
    ensures
        s@ == spec_exchange_link(exchange@),
{
    match exchange_url(exchange) {
        Some(url) => link(url, exchange),
        None => string_of(exchange),
    }
}

/// The web address of an instrument on an exchange.
pub open spec fn spec_instrument_url(exchange: Seq<char>, instrument: Seq<char>) -> Option<
    Seq<char>,
> {
    if exchange == "BitMEX"@ && instrument == "BXBT"@ {
        Some("https://www.bitmex.com/app/index/.BXBT"@)
    } else {
        None
    }
}

/// The web address of an instrument on an exchange.
pub fn instrument_url(exchange: &str, instrument: &str) -> (r: Option<&'static str>)
    ensures
        match r {
            Some(u) => spec_instrument_url(exchange@, instrument@) == Some(u@),
            None => spec_instrument_url(exchange@, instrument@) is None,
        },
{
    if str_eq(exchange, "BitMEX") && str_eq(instrument, "BXBT") {
        Some("https://www.bitmex.com/app/index/.BXBT")
    } else {
        None
    }
}

/// The instrument's name, linked to its web address when it has one.
pub open spec fn spec_instrument_link(exchange: Seq<char>, instrument: Seq<char>) -> Seq<char> {
    match spec_instrument_url(exchange, instrument) {
        Some(url) => spec_link(url, instrument),
        None => instrument,
    }
}

/// The instrument's name, linked to its web address when it has one.
pub fn instrument_link(exchange: &str, instrument: &str) -> (s: String)
    ensures
        s@ == spec_instrument_link(exchange@, instrument@),
{
    match instrument_url(exchange, instrument) {
        Some(url) => link(url, instrument),
        None => string_of(instrument),
    }
}

/// The HTML description of a path, from its segments; the page `random_page` for
/// `/random`, the path's short description where no HTML one is written.
pub open spec fn spec_path_html(segs: Seq<Seq<char>>, random_page: Seq<char>) -> Option<Seq<char>> {
    let n = segs.len();
    if n == 1 && segs[0] == "random"@ {
        Some(random_page)
    } else if n == 2 && segs[0] == "x"@ {
        Some("Exchange rates and prices on <b>"@ + spec_exchange_link(segs[1]) + "</b>"@)
    } else if n == 4 && segs[0] == "x"@ && spec_datetime_parses(segs[3]) {
        Some("<b>"@ + spec_instrument_link(segs[1], segs[2]) + "</b> on <b>"@ + spec_exchange_link(
            segs[1],
        ) + "</b> at <b>"@ + segs[3] + "</b>"@)
    } else if n == 3 && segs[0] == "x"@ {
        Some("<b>"@ + spec_instrument_link(segs[1], segs[2]) + "</b> on <b>"@ + spec_exchange_link(
            segs[1],
        ) + "</b>"@)
    } else {
        spec_path_short(segs)
    }
}

/// Describes the path written in `path` in HTML, `None` when it is not a path or has no
/// description. The page for `/random` is an asset of the application and is given as
/// `random_page`.
pub fn path_html_str(path: &str, random_page: &str) -> (r: Option<String>)
    ensures
        match r {
            Some(s) => crate::path::valid_path(path@) && spec_path_html(spec_segments(path@), random_page@)
                == Some(s@),
            None => !crate::path::valid_path(path@) || spec_path_html(
                spec_segments(path@),
                random_page@,
            ) is None,
        },
{
    let path = match Path::from_str(path) {
        Ok(p) => p,
        Err(_) => {
            return None;
        },
    };
    let path_ref = path.as_path_ref();
    let segs = path_ref.segments();
    let n = segs.len();
    if n == 1 && str_eq(segs[0].as_str(), "random") {
        return Some(string_of(random_page));
    }
    if n == 2 && str_eq(segs[0].as_str(), "x") {
        let mut s = string_of("Exchange rates and prices on <b>");
        let link = exchange_link(segs[1].as_str());
        push_str(&mut s, link.as_str());
        push_str(&mut s, "</b>");
        return Some(s);
    }
    if n == 4 && str_eq(segs[0].as_str(), "x") && DateTime::parse(segs[3].as_str()).is_some() {
        let mut s = string_of("<b>");
        let instrument = instrument_link(segs[1].as_str(), segs[2].as_str());
        push_str(&mut s, instrument.as_str());
        push_str(&mut s, "</b> on <b>");
        let exchange = exchange_link(segs[1].as_str());
        push_str(&mut s, exchange.as_str());
        push_str(&mut s, "</b> at <b>");
        push_str(&mut s, segs[3].as_str());
        push_str(&mut s, "</b>");
        return Some(s);
    }
    if n == 3 && str_eq(segs[0].as_str(), "x") {
        let mut s = string_of("<b>");
        let instrument = instrument_link(segs[1].as_str(), segs[2].as_str());
        push_str(&mut s, instrument.as_str());
        push_str(&mut s, "</b> on <b>");
        let exchange = exchange_link(segs[1].as_str());
        push_str(&mut s, exchange.as_str());
        push_str(&mut s, "</b>");
        return Some(s);
    }
    path_short(path_ref)
}

/// How the children of a path are listed: by date under `/s/<competition>/match`.
pub open spec fn spec_infer_node_kind(segs: Seq<Seq<char>>) -> NodeKind {
    if segs.len() == 3 && segs[0] == "s"@ && segs[2] == "match"@ {
        NodeKind::DateMap
    } else {
        NodeKind::List
    }
}

/// How the children of a path are listed.
pub fn infer_node_kind(path: PathRef<'_>) -> (k: NodeKind)
    ensures
        k == spec_infer_node_kind(spec_segments(path@)),
{
    let segs = path.segments();
    if segs.len() == 3 && str_eq(segs[0].as_str(), "s") && str_eq(segs[2].as_str(), "match") {
        NodeKind::DateMap
    } else {
        NodeKind::List
    }
}

/// The long name of a path, from its segments.
pub open spec fn spec_long_path_name(segs: Seq<Seq<char>>) -> Option<Seq<char>> {
    let n = segs.len();
    if n == 1 && segs[0] == "s"@ {
        Some("Sport"@)
    } else if n == 2 && segs[0] == "s"@ {
        Some(spec_lookup_competition(segs[1]))
    } else if n == 5 && segs[0] == "s"@ && segs[2] == "match"@ {
        match spec_team_codes(segs[4]) {
            Some((l, r)) => Some(spec_lookup_team(segs[1], l) + " vs "@ + spec_lookup_team(
                segs[1],
                r,
            )),
            None => None,
        }
    } else if n == 1 && segs[0] == "x"@ {
        Some("Exchange rates"@)
    } else if n == 0 {
        None
    } else {
        Some(segs[n - 1])
    }
}

/// The long name of the path written in `path`.
pub fn long_path_name_str(path: &str) -> (r: Option<String>)
    ensures
        match r {
            Some(s) => crate::path::valid_path(path@) && spec_long_path_name(spec_segments(path@))
                == Some(s@),
            None => !crate::path::valid_path(path@) || spec_long_path_name(spec_segments(path@))
                is None,
        },
{
    let path = match Path::from_str(path) {
        Ok(p) => p,
        Err(_) => {
            return None;
        },
    };
    let mut segs = path.as_path_ref().segments();
    let n = segs.len();
    if n == 1 && str_eq(segs[0].as_str(), "s") {
        return Some(string_of("Sport"));
    }
    if n == 2 && str_eq(segs[0].as_str(), "s") {
        return Some(string_of(lookup_competition(segs[1].as_str())));
    }
    if n == 5 && str_eq(segs[0].as_str(), "s") && str_eq(segs[2].as_str(), "match") {
        let (left, right) = match team_names(segs[1].as_str(), segs[4].as_str()) {
            Some(pair) => pair,
            None => {
                return None;
            },
        };
        let mut s = left;
        push_str(&mut s, " vs ");
        push_str(&mut s, right.as_str());
        return Some(s);
    }
    if n == 1 && str_eq(segs[0].as_str(), "x") {
        return Some(string_of("Exchange rates"));
    }
    if n == 0 {
        return None;
    }
    Some(segs.swap_remove(n - 1))
}

/// A path under `/random/<time>`.
pub open spec fn random_path(segs: Seq<Seq<char>>) -> bool {
    segs.len() >= 2 && segs[0] == "random"@
}

/// Whether an event id is well formed and can be described: not a digits event, and
/// not a price under `/random` (whose number of outcomes the description would show).
pub open spec fn describable(id: Seq<char>) -> bool {
    &&& spec_id_fault(id) is None
    &&& !(spec_event_kind(id) is Digits)
    &&& !(spec_event_kind(id) is Price && random_path(spec_segments(spec_event_path(id))))
}

/// A predicate's kind: a named outcome, or a price above a bound.
pub open spec fn is_predicate(k: EventKind) -> bool {
    k is Equals || k is PriceAbove
}

/// The event under a predicate: its path with the inner kind (a price for a bound).
pub open spec fn spec_inner_event(id: Seq<char>) -> Seq<char> {
    match spec_event_kind(id) {
        EventKind::Equals(p, _) => spec_join_event(spec_event_path(id), predicated_kind(p)),
        _ => spec_join_event(spec_event_path(id), EventKind::Price { n_digits: 0 }),
    }
}

/// The short description of an event: for a predicate (away from `/random`), the
/// assertion it makes of the event under it.
pub open spec fn spec_event_short(id: Seq<char>) -> Seq<char> {
    let kind = spec_event_kind(id);
    if is_predicate(kind) && !random_path(spec_segments(spec_event_path(id))) {
        match kind {
            EventKind::Equals(_, i) => "assertion that "@ + spec_plain_outcome_desc(
                spec_inner_event(id),
                i as u64,
            ).0,
            EventKind::PriceAbove(b) => "assertion that the "@ + spec_plain_event_short(
                spec_inner_event(id),
            ) + " is greater than "@ + decimal(b as nat),
            _ => Seq::empty(),
        }
    } else {
        spec_plain_event_short(id)
    }
}

/// The short description of an event of a kind other than a predicate's.
pub open spec fn spec_plain_event_short(id: Seq<char>) -> Seq<char> {
    let path = spec_event_path(id);
    let segs = spec_segments(path);
    let kind = spec_event_kind(id);
    let (l, r) = spec_parties(id);
    if segs.len() == 5 && segs[0] == "s"@ && segs[2] == "match"@ && matches!(kind, EventKind::VsMatch(_)) {
        let c = spec_lookup_competition(segs[1]);
        let ll = spec_lookup_team(segs[1], l);
        let rl = spec_lookup_team(segs[1], r);
        match kind {
            EventKind::VsMatch(VsMatchKind::WinOrDraw) => "result of "@ + c + " match "@ + ll
                + " vs "@ + rl + " on "@ + segs[3],
            _ => "winner of "@ + c + " match "@ + ll + " vs "@ + rl + " on "@ + segs[3],
        }
    } else if kind is VsMatch {
        let parent = spec_parent(path)->0;
        match kind {
            EventKind::VsMatch(VsMatchKind::WinOrDraw) => "result of "@ + l + " vs "@ + r + " in "@
                + parent,
            _ => "winner of "@ + l + " vs "@ + r + " in "@ + parent,
        }
    } else if segs.len() == 2 && segs[0] == "time"@ && matches!(kind, EventKind::SingleOccurrence) {
        "time "@ + segs[1] + " has passed"@
    } else if segs.len() >= 2 && segs[0] == "random"@ {
        "oracle's randomly selected outcome from "@ + decimal(spec_n_outcomes(kind))
            + " possibilities at "@ + segs[1]
    } else if kind is Price {
        if segs.len() == 4 && segs[0] == "x"@ {
            "price of "@ + segs[2] + " on "@ + segs[1] + " at "@ + segs[3]
        } else {
            "price of "@ + path
        }
    } else {
        path + " has transpired"@
    }
}

/// The path of a well-formed `vs`/`win` event has a parent.
proof fn lemma_vs_path_has_parent(id: Seq<char>)
    requires
        spec_id_fault(id) is None,
        spec_event_kind(id) is VsMatch,
    ensures
        spec_parent(spec_event_path(id)) is Some,
{
    crate::event::lemma_fault_free_kind_parses(id);
    let path = spec_event_path(id);
    crate::text::lemma_rfind_some(id, '/');
    let slash = crate::text::rfind(id, '/')->0;
    let last = id.skip(slash + 1);
    crate::text::lemma_find_some(last, '.');
    crate::text::lemma_find_some(last, '?');
    assert(path[0] == id[0]);
    crate::text::lemma_rfind_some(path, '/');
    if path == crate::path::root_chars() {
        assert(crate::path::spec_last(path) =~= Seq::<char>::empty());
        crate::text::lemma_split_none(Seq::<char>::empty(), '_');
    }
}

/// Describes an event.
pub fn event_short(event_id: &EventId) -> (s: String)
    requires
        describable(event_id@),
    ensures
        s@ == spec_event_short(event_id@),
{
    proof {
        crate::event::lemma_fault_free_kind_parses(event_id@);
    }
    let kind = event_id.event_kind();
    let segs = event_id.path().segments();
    let random = segs.len() >= 2 && str_eq(segs[0].as_str(), "random");
    match kind {
        EventKind::Equals(p, i) => if !random {
            proof {
                crate::event::lemma_predicate_inner(event_id@);
            }
            let inner = event_id.replace_kind(predicated_kind_of(p));
            let d = plain_outcome(&Outcome { id: inner, value: i as u64 });
            let mut s = string_of("assertion that ");
            push_str(&mut s, d.positive.as_str());
            return s;
        },
        EventKind::PriceAbove(b) => if !random {
            proof {
                crate::event::lemma_price_above_inner(event_id@);
            }
            let inner = event_id.replace_kind(EventKind::Price { n_digits: 0 });
            let mut s = string_of("assertion that the ");
            let short = plain_event_short(&inner);
            push_str(&mut s, short.as_str());
            push_str(&mut s, " is greater than ");
            let bound = decimal_string(b as u64);
            push_str(&mut s, bound.as_str());
            return s;
        },
        _ => {},
    }
    plain_event_short(event_id)
}

/// The event kind that a predicated kind is.
fn predicated_kind_of(p: Predicated) -> (k: EventKind)
    ensures
        k == predicated_kind(p),
{
    match p {
        Predicated::VsMatch(k) => EventKind::VsMatch(k),
        Predicated::SingleOccurrence => EventKind::SingleOccurrence,
    }
}

/// Describes an event of a kind other than a predicate's.
fn plain_event_short(event_id: &EventId) -> (s: String)
    requires
        describable(event_id@),
    ensures
        s@ == spec_plain_event_short(event_id@),
{
    proof {
        crate::event::lemma_fault_free_kind_parses(event_id@);
    }
    let path = event_id.path();
    let segs = path.segments();
    let kind = event_id.event_kind();
    let n = segs.len();
    if n == 5 && str_eq(segs[0].as_str(), "s") && str_eq(segs[2].as_str(), "match")
        && matches!(kind, EventKind::VsMatch(_)) {
        let (left, right) = match event_id.parties() {
            Some(pair) => pair,
            None => {
                assert(false);
                ("", "")
            },
        };
        let competition = segs[1].as_str();
        let mut s = match kind {
            EventKind::VsMatch(VsMatchKind::WinOrDraw) => string_of("result of "),
            _ => string_of("winner of "),
        };
        push_str(&mut s, lookup_competition(competition));
        push_str(&mut s, " match ");
        push_str(&mut s, lookup_team(competition, left));
        push_str(&mut s, " vs ");
        push_str(&mut s, lookup_team(competition, right));
        push_str(&mut s, " on ");
        push_str(&mut s, segs[3].as_str());
        return s;
    }
    if matches!(kind, EventKind::VsMatch(_)) {
        let (left, right) = match event_id.parties() {
            Some(pair) => pair,
            None => {
                assert(false);
                ("", "")
            },
        };
        proof {
            lemma_vs_path_has_parent(event_id@);
        }
        let parent = match path.parent() {
            Some(p) => p,
            None => {
                assert(false);
                path
            },
        };
        let mut s = match kind {
            EventKind::VsMatch(VsMatchKind::WinOrDraw) => string_of("result of "),
            _ => string_of("winner of "),
        };
        push_str(&mut s, left);
        push_str(&mut s, " vs ");
        push_str(&mut s, right);
        push_str(&mut s, " in ");
        push_str(&mut s, parent.as_str());
        return s;
    }
    if n == 2 && str_eq(segs[0].as_str(), "time") && matches!(kind, EventKind::SingleOccurrence) {
        let mut s = string_of("time ");
        push_str(&mut s, segs[1].as_str());
        push_str(&mut s, " has passed");
        return s;
    }
    if n >= 2 && str_eq(segs[0].as_str(), "random") {
        let mut s = string_of("oracle's randomly selected outcome from ");
        let count = decimal_string(event_id.n_outcomes());
        push_str(&mut s, count.as_str());
        push_str(&mut s, " possibilities at ");
        push_str(&mut s, segs[1].as_str());
        return s;
    }
    if let EventKind::Price { .. } = kind {
        if n == 4 && str_eq(segs[0].as_str(), "x") {
            let mut s = string_of("price of ");
            push_str(&mut s, segs[2].as_str());
            push_str(&mut s, " on ");
            push_str(&mut s, segs[1].as_str());
            push_str(&mut s, " at ");
            push_str(&mut s, segs[3].as_str());
            return s;
        }
        let mut s = string_of("price of ");
        push_str(&mut s, path.as_str());
        return s;
    }
    let mut s = string_of(path.as_str());
    push_str(&mut s, " has transpired");
    s
}

/// Describes the event whose id is written in `event_id`; `None` when it is not an event id.
pub fn event_short_str(event_id: &str) -> (r: Option<String>)
    requires
        spec_id_fault(event_id@) is None ==> !(spec_event_kind(event_id@) is Digits) && !(spec_event_kind(
            event_id@,
        ) is Price && random_path(spec_segments(spec_event_path(event_id@)))),
    ensures
        match r {
            Some(s) => spec_id_fault(event_id@) is None && s@ == spec_event_short(event_id@),
            None => spec_id_fault(event_id@) is Some,
        },
{
    let id = match EventId::from_str(event_id) {
        Ok(id) => id,
        Err(_) => {
            return None;
        },
    };
    Some(event_short(&id))
}

/// A statement about an outcome, and its negation.
pub struct OutcomeDesc {
    pub positive: String,
    pub negative: String,
}

impl OutcomeDesc {
    /// Swaps the statement and its negation when `negate` holds.
    pub fn maybe_negate(self, negate: bool) -> (r: Self)
        ensures
            negate ==> r.positive == self.negative && r.negative == self.positive,
            !negate ==> r.positive == self.positive && r.negative == self.negative,
    {
        if negate {
            Self { positive: self.negative, negative: self.positive }
        } else {
            self
        }
    }
}

/// The statement and its negation, swapped when `negate` holds.
pub open spec fn swap_if(negate: bool, d: (Seq<char>, Seq<char>)) -> (Seq<char>, Seq<char>) {
    if negate {
        (d.1, d.0)
    } else {
        d
    }
}

/// What the outcome `v` of the event `id` states, and its negation; a predicate's
/// `true` (1) states what it asserts, its `false` (0) the negation.
pub open spec fn spec_outcome_desc(id: Seq<char>, v: u64) -> (Seq<char>, Seq<char>) {
    match spec_event_kind(id) {
        EventKind::Equals(_, i) => swap_if(v == 0, spec_plain_outcome_desc(spec_inner_event(id), i as u64)),
        EventKind::PriceAbove(b) => swap_if(
            v == 0,
            (
                "the "@ + spec_plain_event_short(spec_inner_event(id)) + " is above "@ + decimal(b as nat),
                "the "@ + spec_plain_event_short(spec_inner_event(id)) + " is not above "@ + decimal(
                    b as nat,
                ),
            ),
        ),
        _ => spec_plain_outcome_desc(id, v),
    }
}

/// What the outcome `v` of an event of a kind other than a predicate's states, and its
/// negation.
pub open spec fn spec_plain_outcome_desc(id: Seq<char>, v: u64) -> (Seq<char>, Seq<char>) {
    let path = spec_event_path(id);
    let segs = spec_segments(path);
    let kind = spec_event_kind(id);
    let (l, r) = spec_parties(id);
    let text = spec_outcome_string(id, v);
    if segs.len() == 5 && segs[0] == "s"@ && segs[2] == "match"@ && matches!(kind, EventKind::VsMatch(_)) {
        let c = spec_lookup_competition(segs[1]);
        let ll = spec_lookup_team(segs[1], l);
        let rl = spec_lookup_team(segs[1], r);
        let date = segs[3];
        if text == "draw"@ {
            (
                ll + " and "@ + rl + " draw in their "@ + c + " match on "@ + date,
                ll + " and "@ + rl + " do not draw in their "@ + c + " match on "@ + date,
            )
        } else {
            let winner = strip_suffix(text, "_win"@)->0;
            let (w, lo) = if winner == l {
                (ll, rl)
            } else {
                (rl, ll)
            };
            (
                w + " beats "@ + lo + " in their "@ + c + " match on "@ + date,
                w + " does not beat "@ + lo + " in their "@ + c + " match on "@ + date,
            )
        }
    } else {
        (
            "the "@ + spec_plain_event_short(id) + " is \""@ + text + "\""@,
            "the "@ + spec_plain_event_short(id) + " is not \""@ + text + "\""@,
        )
    }
}

/// Describes an outcome: what it states and the negation of that.
pub fn outcome(o: &Outcome) -> (d: OutcomeDesc)
    requires
        describable(o.id@),
        is_enum_kind(spec_event_kind(o.id@)),
        spec_event_kind(o.id@) is PriceAbove ==> !random_path(spec_segments(spec_event_path(o.id@))),
        o.value < spec_n_outcomes(spec_event_kind(o.id@)),
    ensures
        (d.positive@, d.negative@) == spec_outcome_desc(o.id@, o.value),
{
    proof {
        crate::event::lemma_fault_free_kind_parses(o.id@);
    }
    match o.id.event_kind() {
        EventKind::Equals(p, i) => {
            proof {
                crate::event::lemma_predicate_inner(o.id@);
            }
            let inner = o.id.replace_kind(predicated_kind_of(p));
            let d = plain_outcome(&Outcome { id: inner, value: i as u64 });
            d.maybe_negate(o.value == 0)
        },
        EventKind::PriceAbove(b) => {
            proof {
                crate::event::lemma_price_above_inner(o.id@);
            }
            let inner = o.id.replace_kind(EventKind::Price { n_digits: 0 });
            let short = plain_event_short(&inner);
            let bound = decimal_string(b as u64);
            let mut pos = string_of("the ");
            push_str(&mut pos, short.as_str());
            push_str(&mut pos, " is above ");
            push_str(&mut pos, bound.as_str());
            let mut neg = string_of("the ");
            push_str(&mut neg, short.as_str());
            push_str(&mut neg, " is not above ");
            push_str(&mut neg, bound.as_str());
            OutcomeDesc { positive: pos, negative: neg }.maybe_negate(o.value == 0)
        },
        _ => plain_outcome(o),
    }
}

/// Describes an outcome of an event of a kind other than a predicate's.
fn plain_outcome(o: &Outcome) -> (d: OutcomeDesc)
    requires
        describable(o.id@),
        is_enum_kind(spec_event_kind(o.id@)),
        o.value < spec_n_outcomes(spec_event_kind(o.id@)),
    ensures
        (d.positive@, d.negative@) == spec_plain_outcome_desc(o.id@, o.value),
{
    proof {
        crate::event::lemma_fault_free_kind_parses(o.id@);
    }
    let id = &o.id;
    let path = id.path();
    let segs = path.segments();
    let kind = id.event_kind();
    let text = o.outcome_string();
    let n = segs.len();
    if n == 5 && str_eq(segs[0].as_str(), "s") && str_eq(segs[2].as_str(), "match")
        && matches!(kind, EventKind::VsMatch(_)) {
        let (left, right) = match id.parties() {
            Some(pair) => pair,
            None => {
                assert(false);
                ("", "")
            },
        };
        let competition = segs[1].as_str();
        let ll = lookup_team(competition, left);
        let rl = lookup_team(competition, right);
        let c = lookup_competition(competition);
        let date = segs[3].as_str();
        if str_eq(text.as_str(), "draw") {
            let mut pos = string_of(ll);
            push_str(&mut pos, " and ");
            push_str(&mut pos, rl);
            push_str(&mut pos, " draw in their ");
            push_str(&mut pos, c);
            push_str(&mut pos, " match on ");
            push_str(&mut pos, date);
            let mut neg = string_of(ll);
            push_str(&mut neg, " and ");
            push_str(&mut neg, rl);
            push_str(&mut neg, " do not draw in their ");
            push_str(&mut neg, c);
            push_str(&mut neg, " match on ");
            push_str(&mut neg, date);
            return OutcomeDesc { positive: pos, negative: neg };
        }
        let tv = chars_of(text.as_str());
        let winner: Vec<char> = match crate::text::strip_suffix_chars(tv.as_slice(), "_win") {
            Some(w) => w,
            None => {
                proof {
                    crate::outcome::lemma_outcome_literals();
                    let t = spec_outcome_string(id@, o.value);
                    assert(t.skip(t.len() - 4) =~= "_win"@);
                }
                assert(false);
                tv
            },
        };
        let (w, lo) = if crate::text::chars_eq_str(winner.as_slice(), left) {
            (ll, rl)
        } else {
            (rl, ll)
        };
        let mut pos = string_of(w);
        push_str(&mut pos, " beats ");
        push_str(&mut pos, lo);
        push_str(&mut pos, " in their ");
        push_str(&mut pos, c);
        push_str(&mut pos, " match on ");
        push_str(&mut pos, date);
        let mut neg = string_of(w);
        push_str(&mut neg, " does not beat ");
        push_str(&mut neg, lo);
        push_str(&mut neg, " in their ");
        push_str(&mut neg, c);
        push_str(&mut neg, " match on ");
        push_str(&mut neg, date);
        return OutcomeDesc { positive: pos, negative: neg };
    }
    let short = plain_event_short(id);
    let mut pos = string_of("the ");
    push_str(&mut pos, short.as_str());
    push_str(&mut pos, " is \"");
    push_str(&mut pos, text.as_str());
    push_str(&mut pos, "\"");
    let mut neg = string_of("the ");
    push_str(&mut neg, short.as_str());
    push_str(&mut neg, " is not \"");
    push_str(&mut neg, text.as_str());
    push_str(&mut neg, "\"");
    OutcomeDesc { positive: pos, negative: neg }
}

/// What the outcome `outcome` of the event `id` (both written out) states.
pub fn outcome_str(id: &str, outcome: &str) -> (r: Option<String>)
    requires
        spec_id_fault(id@) is None ==> is_enum_kind(spec_event_kind(id@)) && !(spec_event_kind(id@) is PriceAbove
            && random_path(spec_segments(spec_event_path(id@)))),
    ensures
        match r {
            Some(s) => describable(id@) && crate::outcome::spec_parse_outcome(id@, outcome@) is Ok
                && s@ == spec_outcome_desc(id@, crate::outcome::spec_parse_outcome(id@, outcome@)->Ok_0).0,
            None => spec_id_fault(id@) is Some || crate::outcome::spec_parse_outcome(id@, outcome@)
                is Err,
        },
{
    let event_id = match EventId::from_str(id) {
        Ok(e) => e,
        Err(_) => {
            return None;
        },
    };
    let parsed = match Outcome::try_from_id_and_outcome(event_id, outcome) {
        Ok(o) => o,
        Err(_) => {
            return None;
        },
    };
    proof {
        crate::outcome::lemma_parsed_outcome_names_back(id@, outcome@);
    }
    let d = crate::describe::outcome(&parsed);
    Some(d.positive)
}

/// An outcome in bold, as the event descriptions show it.
pub open spec fn spec_houtcome(id: Seq<char>, v: u64) -> Seq<char> {
    "<b class='oracle-outcome'>"@ + spec_outcome_string(id, v) + "</b>"@
}

fn houtcome(id: &EventId, value: u64) -> (s: String)
    requires
        id.wf_enum(),
        value < spec_n_outcomes(spec_event_kind(id@)),
    ensures
        s@ == spec_houtcome(id@, value),
{
    let o = Outcome { value, id: id.duplicate() };
    let mut s = string_of("<b class='oracle-outcome'>");
    o.write_outcome_string(&mut s);
    push_str(&mut s, "</b>");
    s
}

/// The HTML description of an event.
pub open spec fn spec_event_html(id: Seq<char>) -> Seq<char> {
    let path = spec_event_path(id);
    let segs = spec_segments(path);
    let kind = spec_event_kind(id);
    let (l, r) = spec_parties(id);
    if segs.len() >= 2 && segs[0] == "random"@ {
        "This event has no real world meaning. The outcome will randomly be selected from the <b>"@
            + decimal(spec_n_outcomes(kind)) + "</b> possibilities at <b>"@ + segs[1] + "</b>"@
    } else if segs.len() == 5 && segs[0] == "s"@ && segs[2] == "match"@ && matches!(kind, EventKind::VsMatch(_)) {
        let c = spec_lookup_competition(segs[1]);
        let ll = spec_lookup_team(segs[1], l);
        let rl = spec_lookup_team(segs[1], r);
        let date = segs[3];
        match kind {
            EventKind::VsMatch(VsMatchKind::WinOrDraw) => c + " match "@ + ll + " vs "@ + rl
                + " on "@ + date + "."@ + " If "@ + ll + " wins the oracle will attest "@
                + spec_houtcome(id, 0) + "."@ + " If "@ + rl + " wins the oracle will attest "@
                + spec_houtcome(id, 1) + "."@ + " Otherwise the oracle will attest "@
                + spec_houtcome(id, 2),
            _ => "The winner of "@ + c + " match "@ + ll + " vs "@ + rl + " on "@ + date + "."@
                + "If "@ + ll + " wins then the oracle will attest "@ + spec_houtcome(id, 0) + "."@
                + "If "@ + rl + " wins then the oracle will attest "@ + spec_houtcome(id, 1),
        }
    } else if kind is Price && segs.len() == 4 && segs[0] == "x"@ {
        spec_price_html(segs)
    } else if kind is Equals {
        "Whether "@ + spec_plain_outcome_desc(spec_inner_event(id), kind->Equals_1 as u64).0 + "."@
            + "The oracle will attest to "@ + spec_houtcome(id, 1) + " if the outcome of "@
            + spec_heventid(spec_inner_event(id)) + " is "@ + spec_houtcome(
            spec_inner_event(id),
            kind->Equals_1 as u64,
        ) + ". Otherwise "@ + spec_houtcome(id, 0)
    } else if kind is PriceAbove {
        let inner_segs = spec_segments(spec_event_path(spec_inner_event(id)));
        "Whether the "@ + (if inner_segs.len() == 4 && inner_segs[0] == "x"@ {
            spec_price_html(inner_segs)
        } else {
            spec_plain_event_short(spec_inner_event(id)) + "."@
        }) + " is greater than <b>"@ + decimal(kind->PriceAbove_0 as nat) + "</b>"@
    } else {
        spec_event_short(id) + "."@
    }
}

/// The HTML description of the price of an instrument on an exchange at a time, from
/// the segments `x`, the exchange, the instrument and the time.
pub open spec fn spec_price_html(segs: Seq<Seq<char>>) -> Seq<char> {
    "price of <b>"@ + spec_instrument_link(segs[1], segs[2]) + "</b> on <b>"@ + spec_exchange_link(
        segs[1],
    ) + "</b> at <b>"@ + segs[3] + "</b>"@
}

/// An event id as a link to itself.
pub open spec fn spec_heventid(id: Seq<char>) -> Seq<char> {
    "<a class='oracle-event-id' href='"@ + id + "'>"@ + id + "</a>"@
}

fn price_html(segs: &Vec<String>) -> (s: String)
    requires
        segs@.len() == 4,
    ensures
        s@ == spec_price_html(segs@.map_values(|x: String| x@)),
{
    let mut s = string_of("price of <b>");
    let instrument = instrument_link(segs[1].as_str(), segs[2].as_str());
    push_str(&mut s, instrument.as_str());
    push_str(&mut s, "</b> on <b>");
    let exchange = exchange_link(segs[1].as_str());
    push_str(&mut s, exchange.as_str());
    push_str(&mut s, "</b> at <b>");
    push_str(&mut s, segs[3].as_str());
    push_str(&mut s, "</b>");
    s
}

fn heventid(id: &EventId) -> (s: String)
    ensures
        s@ == spec_heventid(id@),
{
    let mut s = string_of("<a class='oracle-event-id' href='");
    push_str(&mut s, id.as_str());
    push_str(&mut s, "'>");
    push_str(&mut s, id.as_str());
    push_str(&mut s, "</a>");
    s
}

/// The HTML description of an event.
pub fn event_html(id: &EventId) -> (r: Option<String>)
    requires
        describable(id@),
    ensures
        r == Some(r->0) && r->0@ == spec_event_html(id@),
{
    proof {
        crate::event::lemma_fault_free_kind_parses(id@);
    }
    let path = id.path();
    let segs = path.segments();
    let kind = id.event_kind();
    let n = segs.len();
    if n >= 2 && str_eq(segs[0].as_str(), "random") {
        let mut s = string_of(
            "This event has no real world meaning. The outcome will randomly be selected from the <b>",
        );
        let count = decimal_string(id.n_outcomes());
        push_str(&mut s, count.as_str());
        push_str(&mut s, "</b> possibilities at <b>");
        push_str(&mut s, segs[1].as_str());
        push_str(&mut s, "</b>");
        return Some(s);
    }
    if n == 5 && str_eq(segs[0].as_str(), "s") && str_eq(segs[2].as_str(), "match")
        && matches!(kind, EventKind::VsMatch(_)) {
        let (left, right) = match id.parties() {
            Some(pair) => pair,
            None => {
                assert(false);
                ("", "")
            },
        };
        let competition = segs[1].as_str();
        let ll = lookup_team(competition, left);
        let rl = lookup_team(competition, right);
        let c = lookup_competition(competition);
        let date = segs[3].as_str();
        match kind {
            EventKind::VsMatch(VsMatchKind::WinOrDraw) => {
                let mut s = string_of(c);
                push_str(&mut s, " match ");
                push_str(&mut s, ll);
                push_str(&mut s, " vs ");
                push_str(&mut s, rl);
                push_str(&mut s, " on ");
                push_str(&mut s, date);
                push_str(&mut s, ".");
                push_str(&mut s, " If ");
                push_str(&mut s, ll);
                push_str(&mut s, " wins the oracle will attest ");
                push_str(&mut s, houtcome(id, 0).as_str());
                push_str(&mut s, ".");
                push_str(&mut s, " If ");
                push_str(&mut s, rl);
                push_str(&mut s, " wins the oracle will attest ");
                push_str(&mut s, houtcome(id, 1).as_str());
                push_str(&mut s, ".");
                push_str(&mut s, " Otherwise the oracle will attest ");
                push_str(&mut s, houtcome(id, 2).as_str());
                return Some(s);
            },
            _ => {
                let mut s = string_of("The winner of ");
                push_str(&mut s, c);
                push_str(&mut s, " match ");
                push_str(&mut s, ll);
                push_str(&mut s, " vs ");
                push_str(&mut s, rl);
                push_str(&mut s, " on ");
                push_str(&mut s, date);
                push_str(&mut s, ".");
                push_str(&mut s, "If ");
                push_str(&mut s, ll);
                push_str(&mut s, " wins then the oracle will attest ");
                push_str(&mut s, houtcome(id, 0).as_str());
                push_str(&mut s, ".");
                push_str(&mut s, "If ");
                push_str(&mut s, rl);
                push_str(&mut s, " wins then the oracle will attest ");
                push_str(&mut s, houtcome(id, 1).as_str());
                return Some(s);
            },
        }
    }
    match kind {
        EventKind::Price { .. } => if n == 4 && str_eq(segs[0].as_str(), "x") {
            return Some(price_html(&segs));
        },
        EventKind::Equals(p, i) => {
            proof {
                crate::event::lemma_predicate_inner(id@);
            }
            let inner = id.replace_kind(predicated_kind_of(p));
            let d = plain_outcome(&Outcome { id: inner.duplicate(), value: i as u64 });
            let mut s = string_of("Whether ");
            push_str(&mut s, d.positive.as_str());
            push_str(&mut s, ".");
            push_str(&mut s, "The oracle will attest to ");
            push_str(&mut s, houtcome(id, 1).as_str());
            push_str(&mut s, " if the outcome of ");
            push_str(&mut s, heventid(&inner).as_str());
            push_str(&mut s, " is ");
            push_str(&mut s, houtcome(&inner, i as u64).as_str());
            push_str(&mut s, ". Otherwise ");
            push_str(&mut s, houtcome(id, 0).as_str());
            return Some(s);
        },
        EventKind::PriceAbove(b) => {
            proof {
                crate::event::lemma_price_above_inner(id@);
            }
            let inner = id.replace_kind(EventKind::Price { n_digits: 0 });
            let inner_segs = inner.path().segments();
            let mut s = string_of("Whether the ");
            if inner_segs.len() == 4 && str_eq(inner_segs[0].as_str(), "x") {
                push_str(&mut s, price_html(&inner_segs).as_str());
            } else {
                push_str(&mut s, plain_event_short(&inner).as_str());
                push_str(&mut s, ".");
            }
            push_str(&mut s, " is greater than <b>");
            push_str(&mut s, decimal_string(b as u64).as_str());
            push_str(&mut s, "</b>");
            return Some(s);
        },
        _ => {},
    }
    let mut s = event_short(id);
    push_str(&mut s, ".");
    Some(s)
}

/// The HTML description of the event whose id is written in `id`.
pub fn event_html_str(id: &str) -> (r: Option<String>)
    requires
        spec_id_fault(id@) is None ==> !(spec_event_kind(id@) is Digits) && !(spec_event_kind(id@) is Price
            && random_path(spec_segments(spec_event_path(id@)))),
    ensures
        match r {
            Some(s) => spec_id_fault(id@) is None && s@ == spec_event_html(id@),
            None => spec_id_fault(id@) is Some,
        },
{
    let event_id = match EventId::from_str(id) {
        Ok(e) => e,
        Err(_) => {
            return None;
        },
    };
    event_html(&event_id)
}

/// A date and time as `YYYY-MM-DDTHH:MM:SS`, each part a decimal number.
pub struct DateTime {
    pub year: u16,
    pub month: u8,
    pub day: u8,
    pub hour: u8,
    pub minute: u8,
    pub second: u8,
}

/// `n` parts separated by `sep`, each a decimal number below `bound`.
pub open spec fn spec_parts_below(s: Seq<char>, sep: char, n: nat, bound: nat) -> bool {
    let parts = split(s, sep);
    parts.len() == n && forall|i: int|
        0 <= i < n ==> match parse_decimal(#[trigger] parts[i]) {
            Some(v) => v < bound,
            None => false,
        }
}

/// What `DateTime::parse` accepts: a date and a time either side of the first `T`.
pub open spec fn spec_datetime_parses(s: Seq<char>) -> bool {
    match crate::text::find(s, 'T') {
        Some(t) => {
            let ymd = s.take(t);
            let hms = s.skip(t + 1);
            &&& split(ymd, '-').len() == 3
            &&& (parse_decimal(split(ymd, '-')[0]) matches Some(y) && y < 65536)
            &&& (parse_decimal(split(ymd, '-')[1]) matches Some(m) && m < 256)
            &&& (parse_decimal(split(ymd, '-')[2]) matches Some(d) && d < 256)
            &&& spec_parts_below(hms, ':', 3, 256)
        },
        None => false,
    }
}

impl DateTime {
    /// Reads `YYYY-MM-DDTHH:MM:SS`.
    pub fn parse(dt: &str) -> (r: Option<Self>)
        ensures
            r is Some <==> spec_datetime_parses(dt@),
    {
        let v = chars_of(dt);
        let t = match crate::text::find_char(v.as_slice(), 'T') {
            Some(t) => t,
            None => {
                return None;
            },
        };
        proof {
            crate::text::lemma_find_some(v@, 'T');
        }
        assert(t < v.len());
        let ymd = crate::text::sub_chars(v.as_slice(), 0, t);
        let hms = crate::text::sub_chars(v.as_slice(), t + 1, v.len());
        let dparts = split_chars(ymd.as_slice(), '-');
        if dparts.len() != 3 {
            return None;
        }
        let year = match parse_decimal_below(dparts[0].as_slice(), 65536) {
            Some(y) => y as u16,
            None => {
                return None;
            },
        };
        let month = match parse_decimal_below(dparts[1].as_slice(), 256) {
            Some(m) => m as u8,
            None => {
                return None;
            },
        };
        let day = match parse_decimal_below(dparts[2].as_slice(), 256) {
            Some(d) => d as u8,
            None => {
                return None;
            },
        };
        let tparts = split_chars(hms.as_slice(), ':');
        if tparts.len() != 3 {
            return None;
        }
        let hour = match parse_decimal_below(tparts[0].as_slice(), 256) {
            Some(h) => h as u8,
            None => {
                return None;
            },
        };
        let minute = match parse_decimal_below(tparts[1].as_slice(), 256) {
            Some(m) => m as u8,
            None => {
                return None;
            },
        };
        let second = match parse_decimal_below(tparts[2].as_slice(), 256) {
            Some(s) => s as u8,
            None => {
                return None;
            },
        };
        proof {
            let p = split(hms@, ':');
            assert forall|i: int| 0 <= i < 3 implies match parse_decimal(#[trigger] p[i]) {
                Some(x) => x < 256,
                None => false,
            } by {
                assert(tparts@[i]@ == p[i]);
            }
        }
        Some(DateTime { year, month, day, hour, minute, second })
    }
}

/// In the HTML description of a `win` match in a competition, the outcome attested when
/// a team wins is that team's own outcome, `<team>_win` (the event's first outcome for
/// the left team, its second for the right team), each after the team's full name.
pub proof fn lemma_win_match_html_attests_each_winner(id: Seq<char>)
    requires
        spec_id_fault(id) is None,
        spec_event_kind(id) == EventKind::VsMatch(VsMatchKind::Win),
        spec_segments(spec_event_path(id)).len() == 5,
        spec_segments(spec_event_path(id))[0] == "s"@,
        spec_segments(spec_event_path(id))[2] == "match"@,
    ensures
        ({
            let segs = spec_segments(spec_event_path(id));
            let (l, r) = spec_parties(id);
            let ll = spec_lookup_team(segs[1], l);
            let rl = spec_lookup_team(segs[1], r);
            &&& spec_outcome_names(id)[0] == l + "_win"@
            &&& spec_outcome_names(id)[1] == r + "_win"@
            &&& spec_event_html(id) == "The winner of "@ + spec_lookup_competition(segs[1]) + " match "@ + ll
                + " vs "@ + rl + " on "@ + segs[3] + "."@ + "If "@ + ll + " wins then the oracle will attest "@
                + "<b class='oracle-outcome'>"@ + l + "_win"@ + "</b>"@ + "."@ + "If "@ + rl
                + " wins then the oracle will attest "@ + "<b class='oracle-outcome'>"@ + r + "_win"@ + "</b>"@
        }),
{
    reveal_strlit("s");
    reveal_strlit("random");
    let segs = spec_segments(spec_event_path(id));
    assert("s"@.len() == 1 && "random"@.len() == 6);
    assert(segs[0] != "random"@);
    let (l, r) = spec_parties(id);
    assert(spec_outcome_string(id, 0) == l + "_win"@);
    assert(spec_outcome_string(id, 1) == r + "_win"@);
}

/// In the HTML description of a `vs` match in a competition, the outcome attested when a
/// team wins is that team's own outcome, `<team>_win`, and `draw` otherwise.
pub proof fn lemma_vs_match_html_attests_each_winner(id: Seq<char>)
    requires
        spec_id_fault(id) is None,
        spec_event_kind(id) == EventKind::VsMatch(VsMatchKind::WinOrDraw),
        spec_segments(spec_event_path(id)).len() == 5,
        spec_segments(spec_event_path(id))[0] == "s"@,
        spec_segments(spec_event_path(id))[2] == "match"@,
    ensures
        ({
            let segs = spec_segments(spec_event_path(id));
            let (l, r) = spec_parties(id);
            let ll = spec_lookup_team(segs[1], l);
            let rl = spec_lookup_team(segs[1], r);
            &&& spec_outcome_names(id)[0] == l + "_win"@
            &&& spec_outcome_names(id)[1] == r + "_win"@
            &&& spec_outcome_names(id)[2] == "draw"@
            &&& spec_event_html(id) == spec_lookup_competition(segs[1]) + " match "@ + ll + " vs "@ + rl + " on "@
                + segs[3] + "."@ + " If "@ + ll + " wins the oracle will attest "@ + "<b class='oracle-outcome'>"@
                + l + "_win"@ + "</b>"@ + "."@ + " If "@ + rl + " wins the oracle will attest "@
                + "<b class='oracle-outcome'>"@ + r + "_win"@ + "</b>"@ + "."@ + " Otherwise the oracle will attest "@
                + "<b class='oracle-outcome'>"@ + "draw"@ + "</b>"@
        }),
{
    reveal_strlit("s");
    reveal_strlit("random");
    let segs = spec_segments(spec_event_path(id));
    assert("s"@.len() == 1 && "random"@.len() == 6);
    assert(segs[0] != "random"@);
    let (l, r) = spec_parties(id);
    assert(spec_outcome_string(id, 0) == l + "_win"@);
    assert(spec_outcome_string(id, 1) == r + "_win"@);
    assert(spec_outcome_string(id, 2) == "draw"@);
}

/// The description of a team's win in a match of a competition says that the team (by
/// its full name) beats the other: the event's first outcome is the left team's win,
/// its second the right team's.
pub proof fn lemma_match_outcome_names_the_winner(id: Seq<char>, v: u64)
    requires
        spec_id_fault(id) is None,
        spec_event_kind(id) is VsMatch,
        spec_segments(spec_event_path(id)).len() == 5,
        spec_segments(spec_event_path(id))[0] == "s"@,
        spec_segments(spec_event_path(id))[2] == "match"@,
        v < 2,
    ensures
        ({
            let segs = spec_segments(spec_event_path(id));
            let (l, r) = spec_parties(id);
            let winner = spec_lookup_team(segs[1], if v == 0 { l } else { r });
            let loser = spec_lookup_team(segs[1], if v == 0 { r } else { l });
            let rest = " in their "@ + spec_lookup_competition(segs[1]) + " match on "@ + segs[3];
            spec_outcome_desc(id, v) == (winner + " beats "@ + loser + rest, winner + " does not beat "@ + loser
                + rest)
        }),
{
    crate::outcome::lemma_outcome_literals();
    crate::event::lemma_vs_kind_written(id);
    let (l, r) = spec_parties(id);
    let w = if v == 0 { l } else { r };
    let t = spec_outcome_string(id, v);
    assert(t == w + "_win"@);
    assert(t != "draw"@) by {
        if t == "draw"@ {
            assert(t[t.len() - 4] == '_');
        }
    }
    assert(t.skip(t.len() - 4) =~= "_win"@);
    assert(t.take(t.len() - 4) =~= w);
    assert(l != r);
}

} // verus!
