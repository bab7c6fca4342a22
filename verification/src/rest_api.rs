//! The oracle's HTTP API: what a request for an event, the root or a path is
//! answered, from what the store holds.
use vstd::prelude::*;
use vstd::utf8::{decode_utf8, encode_utf8, valid_utf8};
use crate::announcement::RawAnnouncement;
use crate::attestation::Attestation;
use crate::db::in_memory::{node_at, InMemory};
use crate::event::{id_fault_message, spec_event_fault, EventId};
use crate::node::GetPath;
use crate::oracle_info::OracleKeys;
use crate::path::{root_chars, spec_strip_event, valid_path, Path, PathRef};
use crate::text::{ends_with, push_char, push_str, str_ends_with, string_from, string_of, chars_of, sub_chars};

verus! {

/// A reply: a value, or an error with its HTTP status.
#[derive(Clone, Debug)]
pub enum ApiReply<T> {
    Value(T),
    Error(ErrorMessage),
}

/// An HTTP status code and a message.
#[derive(Clone, Debug)]
pub struct ErrorMessage {
    pub code: u16,
    pub error: String,
}

/// The reason phrase that `http` gives a status code (`None` for a code without one).
pub uninterp spec fn http_canonical_reason(code: u16) -> Option<Seq<char>>;

/// `http::StatusCode::from_u16(code)` and its `canonical_reason`.
///
/// Besides naming the phrase, the contract states the three that the crate's table
/// lists for the statuses this API answers with.
#[verifier::external_body]
fn canonical_reason(code: u16) -> (r: Option<String>)
    requires
        100 <= code < 1000,
    ensures
        match r {
            Some(x) => {
                &&& http_canonical_reason(code) == Some(x@)
                &&& code == 400 ==> x@ == "Bad Request"@
                &&& code == 404 ==> x@ == "Not Found"@
                &&& code == 500 ==> x@ == "Internal Server Error"@
            },
            None => http_canonical_reason(code) is None && code != 400 && code != 404 && code != 500,
        },
{
    match http::StatusCode::from_u16(code) {
        Ok(status) => match status.canonical_reason() {
            Some(reason) => Some(reason.to_string()),
            None => None,
        },
        Err(_) => None,
    }
}

/// The value of a hexadecimal digit given as a byte (either case).
pub open spec fn hex_digit_value(b: u8) -> Option<nat> {
    if 48 <= b <= 57 {
        Some((b - 48) as nat)
    } else if 97 <= b <= 102 {
        Some((b - 87) as nat)
    } else if 65 <= b <= 70 {
        Some((b - 55) as nat)
    } else {
        None
    }
}

/// Percent-decoding of bytes: `%` followed by two hexadecimal digits is the byte they
/// write; every other byte, a `%` without two digits after it among them, stays.
pub open spec fn percent_decoded_bytes(b: Seq<u8>) -> Seq<u8>
    decreases b.len(),
{
    if b.len() == 0 {
        Seq::empty()
    } else if b[0] == 37u8 && b.len() >= 3 && hex_digit_value(b[1]) is Some && hex_digit_value(b[2]) is Some {
        seq![(hex_digit_value(b[1])->0 * 16 + hex_digit_value(b[2])->0) as u8] + percent_decoded_bytes(
            b.skip(3),
        )
    } else {
        seq![b[0]] + percent_decoded_bytes(b.skip(1))
    }
}

/// The text that `percent_encoding` decodes a string to: its UTF-8 bytes
/// percent-decoded, read as UTF-8 (`None` when they are not UTF-8).
pub open spec fn percent_decoded_utf8(s: Seq<char>) -> Option<Seq<char>> {
    let d = percent_decoded_bytes(encode_utf8(s));
    if valid_utf8(d) {
        Some(decode_utf8(d))
    } else {
        None
    }
}

/// `percent_encoding::percent_decode_str(..).decode_utf8()`.
///
/// The contract states the decoding, and also that a string without `%` decodes to
/// itself, as the crate documents.
#[verifier::external_body]
fn percent_decode(s: &str) -> (r: Option<String>)
    ensures
        match r {
            Some(d) => percent_decoded_utf8(s@) == Some(d@) && (!s@.contains('%') ==> d@ == s@),
            None => percent_decoded_utf8(s@) is None && s@.contains('%'),
        },
{
    match percent_encoding::percent_decode_str(s).decode_utf8() {
        Ok(decoded) => Some(decoded.to_string()),
        Err(_) => None,
    }
}

impl ErrorMessage {
    /// The status with its reason phrase as the message.
    pub fn from_status(code: u16) -> (m: Self)
        requires
            100 <= code < 1000,
            http_canonical_reason(code) is Some,
        ensures
            m.code == code,
            Some(m.error@) == http_canonical_reason(code),
    {
        match canonical_reason(code) {
            Some(reason) => ErrorMessage { code, error: reason },
            None => {
                assert(false);
                ErrorMessage { code, error: String::new() }
            },
        }
    }

    /// The status with its reason phrase as the message; `None` for a code that is no
    /// status or has no reason phrase.
    pub fn try_from_status(code: u16) -> (m: Option<Self>)
        ensures
            m is Some <==> (100 <= code < 1000 && http_canonical_reason(code) is Some),
            m matches Some(msg) ==> msg.code == code && Some(msg.error@) == http_canonical_reason(code),
    {
        if code < 100 || code >= 1000 {
            return None;
        }
        match canonical_reason(code) {
            Some(_) => Some(ErrorMessage::from_status(code)),
            None => None,
        }
    }

    /// 404 Not Found.
    pub fn not_found() -> (m: Self)
        ensures
            m.code == 404 && m.error@ == "Not Found"@,
    {
        match canonical_reason(404) {
            Some(reason) => ErrorMessage { code: 404, error: reason },
            None => {
                assert(false);
                ErrorMessage { code: 404, error: String::new() }
            },
        }
    }

    /// 500 Internal Server Error.
    pub fn internal_server_error() -> (m: Self)
        ensures
            m.code == 500 && m.error@ == "Internal Server Error"@,
    {
        match canonical_reason(500) {
            Some(reason) => ErrorMessage { code: 500, error: reason },
            None => {
                assert(false);
                ErrorMessage { code: 500, error: String::new() }
            },
        }
    }

    /// 400 Bad Request.
    pub fn bad_request() -> (m: Self)
        ensures
            m.code == 400 && m.error@ == "Bad Request"@,
    {
        match canonical_reason(400) {
            Some(reason) => ErrorMessage { code: 400, error: reason },
            None => {
                assert(false);
                ErrorMessage { code: 400, error: String::new() }
            },
        }
    }

    /// The same status with another message.
    pub fn with_message(self, message: String) -> (m: Self)
        ensures
            m.code == self.code,
            m.error == message,
    {
        Self { code: self.code, error: message }
    }
}

/// What a request for an event is answered: its announcement and attestation.
#[derive(Debug, Clone)]
pub struct EventResponse {
    pub announcement: RawAnnouncement,
    pub attestation: Option<Attestation>,
}

/// What a request for the root is answered: the oracle's keys and the root node.
#[derive(Debug, Clone)]
pub struct RootResponse {
    pub public_keys: OracleKeys,
    pub node: GetPath,
}

/// What a request for a path is answered: its node.
#[derive(Debug, Clone)]
pub struct PathResponse {
    pub node: GetPath,
}

/// The tail of a request's path, percent-decoded; a tail that does not decode is a
/// bad request.
pub fn percent_decoded_tail(tail: &str) -> (r: ApiReply<String>)
    ensures
        match percent_decoded_utf8(tail@) {
            Some(d) => r matches ApiReply::Value(v) && v@ == d,
            None => r matches ApiReply::Error(e) && e.code == 400 && e.error@
                == "'{}' was not URL encoded properly"@,
        },
{
    match percent_decode(tail) {
        Some(decoded) => ApiReply::Value(decoded),
        None => ApiReply::Error(
            ErrorMessage::bad_request().with_message(string_of("'{}' was not URL encoded properly")),
        ),
    }
}

/// The path a request for an event names: `/<tail>`, then `?<query>` when there is one.
pub open spec fn event_request_path(tail: Seq<char>, query: Option<Seq<char>>) -> Seq<char> {
    match query {
        Some(q) => seq!['/'] + tail + seq!['?'] + q,
        None => seq!['/'] + tail,
    }
}

/// Answers a request for an event.  `None`: the request is not for an event (its tail
/// ends with `/`, or its path has no `.<kind>`); another route answers it.
pub fn get_event(tail: ApiReply<String>, query: Option<String>, db: &InMemory) -> (r: Option<ApiReply<EventResponse>>)
    requires
        db.wf(),
    ensures
        match tail {
            ApiReply::Error(e) => r matches Some(ApiReply::Error(x)) && x.code == e.code && x.error == e.error,
            ApiReply::Value(t) => {
                let path = event_request_path(t@, match query {
                    Some(q) => Some(q@),
                    None => None,
                });
                if ends_with(t@, "/"@) {
                    r is None
                } else if !valid_path(path) {
                    r matches Some(ApiReply::Error(x)) && x.code == 400 && x.error@ == "'"@ + path
                        + "' is not a valid event path: "@ + "badly formatted event path"@
                } else if spec_strip_event(path) is None {
                    r is None
                } else if spec_event_fault(path) is Some {
                    r matches Some(ApiReply::Error(x)) && x.code == 400 && x.error@ == "'"@ + path
                        + "' is not a valid event id: "@ + id_fault_message(spec_event_fault(path).unwrap())
                } else {
                    match db.event_for(path) {
                        Some(e) => r matches Some(ApiReply::Value(v)) && v.announcement@ == e.announcement@
                            && match (v.attestation, e.attestation) {
                            (Some(a), Some(b)) => a@ == b@,
                            (None, None) => true,
                            _ => false,
                        },
                        None => r matches Some(ApiReply::Error(x)) && x.code == 404 && x.error@ == "Not Found"@,
                    }
                }
            },
        },
{
    let tail = match tail {
        ApiReply::Value(tail) => tail,
        ApiReply::Error(e) => {
            return Some(ApiReply::Error(e));
        },
    };
    if str_ends_with(tail.as_str(), "/") {
        return None;
    }
    let mut path = String::new();
    push_char(&mut path, '/');
    push_str(&mut path, tail.as_str());
    match &query {
        Some(q) => {
            push_char(&mut path, '?');
            push_str(&mut path, q.as_str());
        },
        None => {},
    }
    assert(path@ =~= event_request_path(tail@, match query {
        Some(q) => Some(q@),
        None => None,
    }));
    let path = match Path::from_str(path.as_str()) {
        Ok(p) => p,
        Err(e) => {
            let mut m = string_of("'");
            push_str(&mut m, path.as_str());
            push_str(&mut m, "' is not a valid event path: ");
            push_str(&mut m, e.to_message().as_str());
            return Some(ApiReply::Error(ErrorMessage::bad_request().with_message(m)));
        },
    };
    if path.as_path_ref().strip_event().is_none() {
        return None;
    }
    let shown = string_of(path.as_str());
    let reply = match EventId::try_from_path(path) {
        Ok(event_id) => match db.get_announced_event(&event_id) {
            Some(event) => ApiReply::Value(
                EventResponse { announcement: event.announcement, attestation: event.attestation },
            ),
            None => ApiReply::Error(ErrorMessage::not_found()),
        },
        Err(e) => {
            let mut m = string_of("'");
            push_str(&mut m, shown.as_str());
            push_str(&mut m, "' is not a valid event id: ");
            push_str(&mut m, e.to_message().as_str());
            ApiReply::Error(ErrorMessage::bad_request().with_message(m))
        },
    };
    Some(reply)
}

/// Answers a request for the root: the oracle's keys and the root's node, or an
/// internal error when either is missing.
pub fn get_root(db: &InMemory) -> (r: ApiReply<RootResponse>)
    requires
        db.wf(),
    ensures
        match db.public_keys() {
            None => r matches ApiReply::Error(x) && x.code == 500 && x.error@
                == "oracle public keys could not be retrieved from the database"@,
            Some(k) => match r {
                ApiReply::Value(v) => v.public_keys == k && node_at(*db, root_chars(), Some(v.node)),
                ApiReply::Error(x) => x.code == 500 && x.error@ == "root node could not be read from the database"@
                    && node_at(*db, root_chars(), None),
            },
        },
{
    match db.get_public_keys() {
        Some(public_keys) => {
            let root = PathRef::root();
            proof {
            }
            match db.get_node(root) {
                Some(node) => ApiReply::Value(RootResponse { public_keys, node }),
                None => ApiReply::Error(
                    ErrorMessage::internal_server_error().with_message(
                        string_of("root node could not be read from the database"),
                    ),
                ),
            }
        },
        None => ApiReply::Error(
            ErrorMessage::internal_server_error().with_message(
                string_of("oracle public keys could not be retrieved from the database"),
            ),
        ),
    }
}

/// The path a request for a path names: `/<tail>`, without one trailing `/`.
pub open spec fn path_request_path(tail: Seq<char>) -> Seq<char> {
    if ends_with(tail, "/"@) {
        seq!['/'] + tail.drop_last()
    } else {
        seq!['/'] + tail
    }
}

/// Answers a request for a path: its node, not found when nothing is at it.
pub fn get_path(tail: ApiReply<String>, db: &InMemory) -> (r: ApiReply<PathResponse>)
    requires
        db.wf(),
    ensures
        match tail {
            ApiReply::Error(e) => r matches ApiReply::Error(x) && x.code == e.code && x.error == e.error,
            ApiReply::Value(t) => {
                let path = path_request_path(t@);
                if !valid_path(path) {
                    r matches ApiReply::Error(x) && x.code == 400 && x.error@ == "'"@ + path
                        + "' is not a valid event path: "@ + "badly formatted event path"@
                } else {
                    match r {
                        ApiReply::Value(v) => node_at(*db, path, Some(v.node)),
                        ApiReply::Error(x) => x.code == 404 && x.error@ == "Not Found"@ && node_at(*db, path, None),
                    }
                }
            },
        },
{
    let tail = match tail {
        ApiReply::Value(tail) => tail,
        ApiReply::Error(e) => {
            return ApiReply::Error(e);
        },
    };
    let tv = chars_of(tail.as_str());
    let trims = str_ends_with(tail.as_str(), "/");
    proof {
        reveal_strlit("/");
    }
    let trimmed = if trims {
        string_from(sub_chars(tv.as_slice(), 0, tv.len() - 1).as_slice())
    } else {
        string_of(tail.as_str())
    };
    let mut full = String::new();
    push_char(&mut full, '/');
    push_str(&mut full, trimmed.as_str());
    proof {
        if ends_with(tail@, "/"@) {
            assert(trimmed@ =~= tail@.drop_last());
        }
        assert(full@ =~= path_request_path(tail@));
    }
    let path = match Path::from_str(full.as_str()) {
        Ok(p) => p,
        Err(e) => {
            let mut m = string_of("'");
            push_str(&mut m, full.as_str());
            push_str(&mut m, "' is not a valid event path: ");
            push_str(&mut m, e.to_message().as_str());
            return ApiReply::Error(ErrorMessage::bad_request().with_message(m));
        },
    };
    proof {
    }
    match db.get_node(path.as_path_ref()) {
        Some(node) => ApiReply::Value(PathResponse { node }),
        None => ApiReply::Error(ErrorMessage::not_found()),
    }
}

} // verus!
