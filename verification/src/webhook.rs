//! The webhook transport: the request body derived from one event, the
//! classification of one HTTP attempt, and the header map the client is
//! built with at bootstrap.

use vstd::prelude::*;
use crate::event::Event;
use crate::retry::Policy;
use crate::writer::ErrorPolicy;

verus! {

/// Configuration of one webhook sink instance.
#[derive(Clone, Debug, Default)]
pub struct Config {
    pub url: String,
    /// Optional bearer/auth header value, applied to every attempt.
    pub authorization: Option<String>,
    /// Extra static headers, applied in order to every attempt.
    pub headers: Option<Vec<(String, String)>>,
    /// Request timeout in milliseconds.
    pub timeout: Option<u64>,
    pub error_policy: Option<ErrorPolicy>,
    pub retry_policy: Option<Policy>,
}

/// The source timestamp scaled from seconds to milliseconds,
/// saturating at the integer bound; absent when the event had none.
pub open spec fn spec_timestamp_millis(ts: Option<u64>) -> Option<u64> {
    match ts {
        Option::None => Option::None,
        Option::Some(x) => Option::Some(
            if x * 1000 <= u64::MAX {
                (x * 1000) as u64
            } else {
                u64::MAX
            },
        ),
    }
}

/// The body POSTed to the webhook: the event's own fields, serialized
/// flattened together with the derived `variant` tag and a
/// millisecond `timestamp`.
pub struct RequestBody {
    pub event: Event,
    pub variant: String,
    pub timestamp: Option<u64>,
}

impl RequestBody {
    /// Derives the POSTed body from one event: `variant` names the
    /// payload's kind, and `timestamp` is the source timestamp in
    /// milliseconds, or absent if the source event had none.
    pub fn from(event: Event) -> (r: RequestBody)
        ensures
            r.event == event,
            r.variant@ == event.data.spec_variant_name(),
            r.timestamp == spec_timestamp_millis(event.context.timestamp),
    {
        let timestamp = match event.context.timestamp {
            Option::Some(x) => Option::Some(
                if x <= u64::MAX / 1000 {
                    x * 1000
                } else {
                    u64::MAX
                },
            ),
            Option::None => Option::None,
        };
        let variant = event.data.variant_name();
        RequestBody { event, timestamp, variant }
    }
}

/// Classifies one webhook attempt for the retry executor: a
/// transport-level failure (no status at all) and a non-2xx status are
/// both failures, surfaced identically.
pub fn attempt_succeeded(status: Option<u16>) -> (r: bool)
    ensures
        r == (status is Some && 200 <= status.unwrap() < 300),
{
    match status {
        Option::Some(s) => 200 <= s && s < 300,
        Option::None => false,
    }
}

/// `reqwest::header::HeaderMap` (http's header multimap), carried
/// opaquely; its contents are spoken of through `spec_header_entries`.
#[verifier::external_type_specification]
#[verifier::external_body]
#[verifier::reject_recursive_types(T)]
pub struct ExHeaderMap<T>(reqwest::header::HeaderMap<T>);

/// `reqwest::header::HeaderName` (http's validated, lowercased header
/// name), carried opaquely; its text is `spec_name_text`.
#[verifier::external_type_specification]
#[verifier::external_body]
pub struct ExHeaderName(reqwest::header::HeaderName);

/// `reqwest::header::HeaderValue` (http's validated header value),
/// carried opaquely; its text is `spec_value_text`.
#[verifier::external_type_specification]
#[verifier::external_body]
pub struct ExHeaderValue(reqwest::header::HeaderValue);

/// What a header map holds: one value per (lowercased) header name.
pub uninterp spec fn spec_header_entries(m: reqwest::header::HeaderMap) -> Map<
    Seq<char>,
    Seq<char>,
>;

/// How many distinct header names a header map holds.
pub uninterp spec fn spec_entry_count(m: reqwest::header::HeaderMap) -> nat;

/// Below this many entries, inserting into a header map is always
/// accepted: http's insertion can only fail once the map already holds
/// several thousand distinct names (it stops growing at 32768 index
/// slots, three quarters of which are usable, and its collision
/// fallback needs a fifth of that). 4096 is a comfortable floor under
/// every such path.
pub const HEADER_MAP_SAFE_CAPACITY: usize = 4096;

/// The text of a header name (always lowercase).
pub uninterp spec fn spec_name_text(n: reqwest::header::HeaderName) -> Seq<char>;

/// The text a header value was built from.
pub uninterp spec fn spec_value_text(v: reqwest::header::HeaderValue) -> Seq<char>;

/// ASCII uppercase letters lowered; every other character unchanged.
pub open spec fn spec_lower_char(c: char) -> char {
    match c {
        'A' => 'a',
        'B' => 'b',
        'C' => 'c',
        'D' => 'd',
        'E' => 'e',
        'F' => 'f',
        'G' => 'g',
        'H' => 'h',
        'I' => 'i',
        'J' => 'j',
        'K' => 'k',
        'L' => 'l',
        'M' => 'm',
        'N' => 'n',
        'O' => 'o',
        'P' => 'p',
        'Q' => 'q',
        'R' => 'r',
        'S' => 's',
        'T' => 't',
        'U' => 'u',
        'V' => 'v',
        'W' => 'w',
        'X' => 'x',
        'Y' => 'y',
        'Z' => 'z',
        _ => c,
    }
}

/// A string lowered character by character.
pub open spec fn spec_lower(s: Seq<char>) -> Seq<char> {
    s.map_values(|c: char| spec_lower_char(c))
}

/// The characters http permits in a header name: the HTTP token
/// characters, with uppercase letters accepted (and lowered).
pub open spec fn spec_valid_name_char(c: char) -> bool {
    ||| c == '!'
    ||| c == '#'
    ||| c == '$'
    ||| c == '%'
    ||| c == '&'
    ||| c == '\''
    ||| c == '*'
    ||| c == '+'
    ||| c == '-'
    ||| c == '.'
    ||| ('0' <= c && c <= '9')
    ||| c == '^'
    ||| c == '_'
    ||| c == '`'
    ||| ('a' <= c && c <= 'z')
    ||| ('A' <= c && c <= 'Z')
    ||| c == '|'
    ||| c == '~'
}

/// The strings http accepts as a header name: nonempty, at most 65535
/// characters, token characters only.
pub open spec fn spec_valid_header_name(s: Seq<char>) -> bool {
    &&& 0 < s.len() <= 65535
    &&& forall|i: int| 0 <= i < s.len() ==> spec_valid_name_char(#[trigger] s[i])
}

/// The strings http accepts as a header value: every character is tab
/// or at least space, excluding delete.
pub open spec fn spec_valid_header_value(s: Seq<char>) -> bool {
    forall|i: int|
        0 <= i < s.len() ==> (#[trigger] s[i] == '\t' || (s[i] >= ' ' && s[i] != '\u{7f}'))
}

/// A header map with nothing in it yet.
pub open spec fn spec_no_entries(m: reqwest::header::HeaderMap) -> bool {
    spec_header_entries(m) == Map::<Seq<char>, Seq<char>>::empty()
}

/// Relies on http's `HeaderMap::new`: the new map is empty.
#[verifier::external_body]
fn new_header_map() -> (m: reqwest::header::HeaderMap)
    ensures
        spec_no_entries(m),
        spec_entry_count(m) == 0,
{
    reqwest::header::HeaderMap::new()
}

/// Relies on http's `HeaderMap::try_insert`: on success the new value
/// replaces every value previously associated with the name, adding at
/// most one distinct name; it always succeeds below
/// `HEADER_MAP_SAFE_CAPACITY` entries, only failing once the map
/// cannot grow any further, and every failure check happens before the
/// contents are touched, so they are then unchanged.
#[verifier::external_body]
fn header_map_insert(
    m: &mut reqwest::header::HeaderMap,
    name: reqwest::header::HeaderName,
    value: reqwest::header::HeaderValue,
) -> (r: bool)
    ensures
        spec_entry_count(*old(m)) < HEADER_MAP_SAFE_CAPACITY ==> r,
        r ==> spec_header_entries(*final(m)) == spec_header_entries(*old(m)).insert(
            spec_name_text(name),
            spec_value_text(value),
        ),
        r ==> spec_entry_count(*final(m)) <= spec_entry_count(*old(m)) + 1,
        !r ==> spec_header_entries(*final(m)) == spec_header_entries(*old(m)),
        !r ==> spec_entry_count(*final(m)) == spec_entry_count(*old(m)),
{
    m.try_insert(name, value).is_ok()
}

/// Relies on http's `HeaderName::from_bytes`: it accepts exactly the
/// nonempty token strings of at most 65535 bytes, lowering ASCII
/// uppercase letters, and rejects everything else.
#[verifier::external_body]
fn header_name_from_str(s: &str) -> (r: Option<reqwest::header::HeaderName>)
    ensures
        r is Some <==> spec_valid_header_name(s@),
        r is Some ==> spec_name_text(r.unwrap()) == spec_lower(s@),
{
    reqwest::header::HeaderName::from_bytes(s.as_bytes()).ok()
}

/// Relies on http's `HeaderValue::from_str`: it accepts exactly the
/// strings whose bytes are tab or at least 32, excluding delete, and
/// keeps them unchanged.
#[verifier::external_body]
fn header_value_from_str(s: &str) -> (r: Option<reqwest::header::HeaderValue>)
    ensures
        r is Some <==> spec_valid_header_value(s@),
        r is Some ==> spec_value_text(r.unwrap()) == s@,
{
    reqwest::header::HeaderValue::from_str(s).ok()
}

/// Relies on http's `CONTENT_TYPE` constant, whose text is
/// "content-type".
#[verifier::external_body]
fn content_type_name() -> (n: reqwest::header::HeaderName)
    ensures
        spec_name_text(n) == "content-type"@,
{
    reqwest::header::CONTENT_TYPE
}

/// Relies on http's `AUTHORIZATION` constant, whose text is
/// "authorization".
#[verifier::external_body]
fn authorization_name() -> (n: reqwest::header::HeaderName)
    ensures
        spec_name_text(n) == "authorization"@,
{
    reqwest::header::AUTHORIZATION
}

/// Relies on http's `HeaderValue::from_static`, applied to the valid
/// constant "application/json".
#[verifier::external_body]
fn json_content_type_value() -> (v: reqwest::header::HeaderValue)
    ensures
        spec_value_text(v) == "application/json"@,
{
    reqwest::header::HeaderValue::from_static("application/json")
}

/// Why webhook sink construction failed. Construction errors are
/// fatal: they are raised once at bootstrap and never retried.
#[derive(Clone, Copy, Debug, PartialEq, Eq, Structural)]
pub enum SetupError {
    /// The configured authorization string is not a legal header value.
    InvalidAuthorization,
    /// A configured extra header's name is not a legal header name.
    InvalidHeaderName,
    /// A configured extra header's value is not a legal header value.
    InvalidHeaderValue,
    /// More headers were configured than the client's header map can
    /// hold.
    TooManyHeaders,
}

impl Config {
    /// The configured extra headers as text pairs, in order.
    pub open spec fn spec_extras(self) -> Seq<(Seq<char>, Seq<char>)> {
        match self.headers {
            Option::None => Seq::empty(),
            Option::Some(v) => v@.map_values(|p: (String, String)| (p.0@, p.1@)),
        }
    }

    /// Whether every configured header parses: the authorization value
    /// and each extra header's name and value.
    pub open spec fn spec_headers_valid(self) -> bool {
        &&& (self.authorization is Some ==> spec_valid_header_value(self.authorization.unwrap()@))
        &&& forall|i: int|
            0 <= i < self.spec_extras().len() ==> spec_valid_header_name(
                (#[trigger] self.spec_extras()[i]).0,
            ) && spec_valid_header_value(self.spec_extras()[i].1)
    }
}

/// The headers applied after the base ones: each extra header inserted
/// in order, its name lowered; a later entry overrides an earlier one
/// of the same name.
pub open spec fn spec_apply_extras(
    base: Map<Seq<char>, Seq<char>>,
    extras: Seq<(Seq<char>, Seq<char>)>,
) -> Map<Seq<char>, Seq<char>>
    decreases extras.len(),
{
    if extras.len() == 0 {
        base
    } else {
        spec_apply_extras(base.insert(spec_lower(extras[0].0), extras[0].1), extras.skip(1))
    }
}

/// The base headers of every request: the JSON content type, and the
/// configured authorization value when there is one.
pub open spec fn spec_base_headers(auth: Option<Seq<char>>) -> Map<Seq<char>, Seq<char>> {
    let base = Map::<Seq<char>, Seq<char>>::empty().insert("content-type"@, "application/json"@);
    match auth {
        Option::None => base,
        Option::Some(a) => base.insert("authorization"@, a),
    }
}

/// The full header map one webhook sink's client is built with.
pub open spec fn spec_config_headers(config: Config) -> Map<Seq<char>, Seq<char>> {
    let auth = match config.authorization {
        Option::None => Option::None,
        Option::Some(a) => Option::Some(a@),
    };
    spec_apply_extras(spec_base_headers(auth), config.spec_extras())
}

/// Builds the header map every request is sent with: the JSON content
/// type, the optional authorization value, then each configured extra
/// header in order. Any header that does not parse is a fatal
/// construction error, as is running into the header map's capacity
/// limit.
pub fn build_headers_map(config: &Config) -> (r: Result<reqwest::header::HeaderMap, SetupError>)
    ensures
        r is Ok ==> config.spec_headers_valid(),
        config.spec_headers_valid() ==> (r is Ok || r == Result::<
            reqwest::header::HeaderMap,
            SetupError,
        >::Err(SetupError::TooManyHeaders)),
        (config.spec_headers_valid() && config.spec_extras().len() + 2 <= HEADER_MAP_SAFE_CAPACITY)
            ==> r is Ok,
        r is Ok ==> spec_header_entries(r.unwrap()) == spec_config_headers(*config),
        r == Result::<reqwest::header::HeaderMap, SetupError>::Err(SetupError::InvalidAuthorization)
            <==> (config.authorization is Some && !spec_valid_header_value(
            config.authorization.unwrap()@,
        )),
        r == Result::<reqwest::header::HeaderMap, SetupError>::Err(SetupError::InvalidHeaderName)
            ==> exists|i: int|
            0 <= i < config.spec_extras().len() && !spec_valid_header_name(
                (#[trigger] config.spec_extras()[i]).0,
            ),
        r == Result::<reqwest::header::HeaderMap, SetupError>::Err(SetupError::InvalidHeaderValue)
            ==> exists|i: int|
            0 <= i < config.spec_extras().len() && !spec_valid_header_value(
                (#[trigger] config.spec_extras()[i]).1,
            ),
{
    let auth_value = match &config.authorization {
        Option::Some(auth) => {
            match header_value_from_str(auth.as_str()) {
                Option::Some(v) => Option::Some(v),
                Option::None => {
                    return Result::Err(SetupError::InvalidAuthorization);
                },
            }
        },
        Option::None => Option::None,
    };
    let mut m = new_header_map();
    if !header_map_insert(&mut m, content_type_name(), json_content_type_value()) {
        return Result::Err(SetupError::TooManyHeaders);
    }
    match auth_value {
        Option::Some(v) => {
            if !header_map_insert(&mut m, authorization_name(), v) {
                return Result::Err(SetupError::TooManyHeaders);
            }
        },
        Option::None => {},
    }
    let ghost extras_view = config.spec_extras();
    proof {
        assert(extras_view.skip(0) =~= extras_view);
    }
    match &config.headers {
        Option::Some(extras) => {
            let mut j: usize = 0;
            while j < extras.len()
                invariant
                    j <= extras.len(),
                    config.authorization is Some ==> spec_valid_header_value(
                        config.authorization.unwrap()@,
                    ),
                    extras_view == config.spec_extras(),
                    config.headers == Option::Some(*extras),
                    extras_view.len() == extras.len(),
                    forall|i: int|
                        0 <= i < extras.len() ==> #[trigger] extras_view[i] == (
                        extras@[i].0@,
                        extras@[i].1@,
                        ),
                    forall|i: int|
                        0 <= i < j ==> spec_valid_header_name((#[trigger] extras_view[i]).0)
                            && spec_valid_header_value(extras_view[i].1),
                    spec_config_headers(*config) == spec_apply_extras(
                        spec_header_entries(m),
                        extras_view.skip(j as int),
                    ),
                    spec_entry_count(m) <= 2 + j,
                decreases extras.len() - j,
            {
                proof {
                    assert(extras_view.skip(j as int)[0] == extras_view[j as int]);
                    assert(extras_view.skip(j as int).skip(1) =~= extras_view.skip(j as int + 1));
                }
                let name = match header_name_from_str(extras[j].0.as_str()) {
                    Option::Some(n) => n,
                    Option::None => {
                        return Result::Err(SetupError::InvalidHeaderName);
                    },
                };
                let value = match header_value_from_str(extras[j].1.as_str()) {
                    Option::Some(v) => v,
                    Option::None => {
                        return Result::Err(SetupError::InvalidHeaderValue);
                    },
                };
                if !header_map_insert(&mut m, name, value) {
                    return Result::Err(SetupError::TooManyHeaders);
                }
                j = j + 1;
            }
        },
        Option::None => {},
    }
    Result::Ok(m)
}

} // verus!
