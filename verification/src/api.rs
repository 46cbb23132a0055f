//! Payloads exchanged with the Kefilex desk-companion endpoints, and the
//! pure parts of the HTTP exchanges: endpoint URLs, error messages for failed
//! responses, and the checks made on parsed replies.
//!
//!   pair         POST /api/desk-companion/pair         6-digit code → token
//!   heartbeat    POST /api/desk-companion/heartbeat    prove we're alive
//!   call-event   POST /api/desk-companion/call-event   report a call event

use vstd::prelude::*;
use vstd::utf8::{decode_utf8, encode_utf8, is_char_boundary};
use vstd::string::{StringExecFns, StringSliceAdditionalSpecFns};
use crate::text::is_ascii_digit_spec;

verus! {

broadcast use vstd::utf8::group_utf8_lib;

/// Reply of `/pair`.
#[derive(Debug, Clone)]
pub struct PairResponse {
    pub ok: bool,
    pub token: String,
    pub device_id: String,
}

/// Reply of `/heartbeat`.
#[derive(Debug, Clone)]
pub struct HeartbeatResponse {
    pub ok: bool,
    pub server_time: String,
}

/// Reply of `/call-event`.
#[derive(Debug, Clone)]
pub struct CallEventResponse {
    pub ok: bool,
    pub call_id: String,
    pub server_time: String,
}

/// The `metadata` object of a call event. It never carries notification
/// text: what a toast says reaches the backend only as the extracted caller
/// fields.
#[derive(Debug, Clone)]
pub enum CallMetadata {
    /// Raised by a matched OS notification: no further metadata.
    Notification,
    /// Raised by sustained softphone audio; carries what triggered it, the
    /// process name and an explanatory note.
    AudioSession { trigger: String, process_name: String, note: String },
}

/// A call event as posted to `/call-event`: the caller's phone and name as
/// extracted, the softphone, an optional intended-recipient hint, when the
/// call started and when the companion captured it.
#[derive(Debug, Clone)]
pub struct CallEvent<'a> {
    /// `ringing`, `answered`, `missed`, `voicemail` or `ended`.
    pub event_type: &'a str,
    pub caller_phone_e164: Option<String>,
    pub caller_display_name: Option<String>,
    pub source_app: Option<String>,
    pub intended_recipient_hint: Option<String>,
    /// ISO-8601 UTC time.
    pub started_at: String,
    /// ISO-8601 UTC time.
    pub captured_at: String,
    pub metadata: CallMetadata,
}

/// The shape of `to_rfc3339_opts(SecondsFormat::Millis, true)` on a UTC
/// time: a year of at least four characters, then
/// `-MM-DDTHH:MM:SS.mmmZ` with ASCII digits in the numeric places.
pub open spec fn is_rfc3339_utc_millis(s: Seq<char>) -> bool {
    let n = s.len() as int;
    &&& n >= 24
    &&& s[n - 20] == '-'
    &&& s[n - 17] == '-'
    &&& s[n - 14] == 'T'
    &&& s[n - 11] == ':'
    &&& s[n - 8] == ':'
    &&& s[n - 5] == '.'
    &&& s[n - 1] == 'Z'
    &&& forall|k: int|
        n - 20 < k < n - 1 && k != n - 17 && k != n - 14 && k != n - 11 && k != n - 8 && k != n
            - 5 ==> is_ascii_digit_spec(#[trigger] s[k])
}

/// The largest Unix time (in seconds) of year 9999: `9999-12-31T23:59:59Z`.
pub const LAST_SECOND_OF_YEAR_9999: i64 = 253402300799;

/// The system clock from `std::time::SystemTime::now()`, measured by
/// `duration_since(UNIX_EPOCH)` as whole seconds and the nanoseconds beyond
/// them (`Duration::as_secs`, `Duration::subsec_nanos`); `None` when the clock
/// reads earlier than the epoch. Which time it is depends on the clock and is
/// not stated; std documents that the nanoseconds are below one billion.
#[verifier::external_body]
fn unix_clock_now() -> (r: Option<(u64, u32)>)
    ensures
        r matches Some(t) ==> t.1 < 1_000_000_000,
{
    let d = std::time::SystemTime::now().duration_since(std::time::UNIX_EPOCH).ok()?;
    Some((d.as_secs(), d.subsec_nanos()))
}

/// What `chrono::DateTime::from_timestamp(secs, nanos)` followed by
/// `to_rfc3339_opts(SecondsFormat::Millis, true)` gives: `None` where chrono
/// has no such time, else the RFC 3339 text of that UTC time.
pub uninterp spec fn rfc3339_millis_of_timestamp(secs: i64, nanos: u32) -> Option<Seq<char>>;

/// `chrono::DateTime::from_timestamp(secs, nanos)` written with
/// `to_rfc3339_opts(SecondsFormat::Millis, true)`. The text is the name
/// above applied to the arguments. chrono's source shows that every time
/// from the epoch to the end of year 9999 with nanoseconds below one billion
/// exists, and that its RFC 3339 writer always gives a year of at least four
/// characters, then `-MM-DDTHH:MM:SS.mmmZ`.
#[verifier::external_body]
fn rfc3339_millis_at(secs: i64, nanos: u32) -> (r: Option<String>)
    ensures
        match r {
            Some(s) => rfc3339_millis_of_timestamp(secs, nanos) == Some(s@) && is_rfc3339_utc_millis(s@),
            None => rfc3339_millis_of_timestamp(secs, nanos) is None,
        },
        0 <= secs <= LAST_SECOND_OF_YEAR_9999 && nanos < 1_000_000_000 ==> r is Some,
{
    let t = chrono::DateTime::from_timestamp(secs, nanos)?;
    Some(t.to_rfc3339_opts(chrono::SecondsFormat::Millis, true))
}

/// The view of an optional string.
pub open spec fn opt_text_view(r: Option<String>) -> Option<Seq<char>> {
    match r {
        Some(s) => Some(s@),
        None => None,
    }
}

/// The RFC 3339 text (UTC, with milliseconds) of a clock reading given as
/// whole seconds and nanoseconds since the Unix epoch: chrono's text of that
/// very timestamp, `None` for no reading or for seconds beyond `i64`, and
/// always a text for a time up to the end of year 9999.
pub fn rfc3339_of_clock_reading(reading: Option<(u64, u32)>) -> (r: Option<String>)
    ensures
        reading is None ==> (r is None),
        reading matches Some(t) ==> (t.0 > i64::MAX ==> r is None),
        reading matches Some(t) ==> (t.0 <= i64::MAX ==> opt_text_view(r)
            == rfc3339_millis_of_timestamp(t.0 as i64, t.1)),
        reading matches Some(t) ==> (t.0 <= LAST_SECOND_OF_YEAR_9999 && t.1 < 1_000_000_000
            ==> r is Some),
        r matches Some(s) ==> is_rfc3339_utc_millis(s@),
{
    match reading {
        Some((secs, nanos)) => {
            if secs <= i64::MAX as u64 {
                rfc3339_millis_at(secs as i64, nanos)
            } else {
                None
            }
        },
        None => None,
    }
}

/// `s` is chrono's RFC 3339 text (UTC, milliseconds) of some timestamp.
pub open spec fn is_timestamp_text(s: Seq<char>) -> bool {
    exists|secs: i64, nanos: u32| rfc3339_millis_of_timestamp(secs, nanos) == Some(s)
}

/// The current UTC time in RFC 3339 form with milliseconds, or `None` when
/// the system clock cannot be read as a time after the Unix epoch that
/// chrono can represent: [`rfc3339_of_clock_reading`] of the clock's reading.
pub(crate) fn utc_now_rfc3339_millis() -> (r: Option<String>)
    ensures
        r matches Some(s) ==> is_rfc3339_utc_millis(s@) && is_timestamp_text(s@),
{
    let reading = unix_clock_now();
    let r = rfc3339_of_clock_reading(reading);
    proof {
        if let Some(t) = reading {
            if t.0 <= i64::MAX {
                if r is Some {
                    assert(rfc3339_millis_of_timestamp(t.0 as i64, t.1) == Some(r->Some_0@));
                }
            }
        }
    }
    r
}

/// The URL of a desk-companion endpoint under `api_base`.
pub open spec fn endpoint_url_spec(api_base: Seq<char>, endpoint: Seq<char>) -> Seq<char> {
    api_base + "/api/desk-companion/"@ + endpoint
}

/// `{api_base}/api/desk-companion/{endpoint}`.
pub fn endpoint_url(api_base: &str, endpoint: &str) -> (r: String)
    ensures
        r@ == endpoint_url_spec(api_base@, endpoint@),
{
    let mut r = api_base.to_owned();
    r.append("/api/desk-companion/");
    r.append(endpoint);
    r
}

/// The first `max` bytes of `s` followed by an ellipsis, or `s` itself when
/// it is no longer than `max` bytes.
pub open spec fn truncate_spec(s: Seq<char>, max: int) -> Seq<char> {
    if encode_utf8(s).len() <= max {
        s
    } else {
        decode_utf8(encode_utf8(s).subrange(0, max)) + "…"@
    }
}

/// `truncate` may be applied: the string fits, or `max` falls on a character
/// boundary (elsewhere slicing the string would panic). The byte length of a
/// string in memory always fits in `usize`.
pub open spec fn truncate_allowed(s: Seq<char>, max: int) -> bool {
    &&& encode_utf8(s).len() <= usize::MAX
    &&& (encode_utf8(s).len() <= max || is_char_boundary(encode_utf8(s), max))
}

/// Shorten a response body for an error message: at most `max` bytes of it,
/// with `…` appended when something was cut.
pub fn truncate(s: &str, max: usize) -> (r: String)
    requires
        truncate_allowed(s@, max as int),
    ensures
        r@ == truncate_spec(s@, max as int),
{
    if s.len() <= max {
        s.to_owned()
    } else {
        let (head, _tail) = s.split_at(max);
        let mut r = head.to_owned();
        r.append("…");
        proof {
            assert(head@ == decode_utf8(encode_utf8(head@)));
        }
        r
    }
}

/// How many bytes of a response body an error message keeps.
pub const BODY_SNIPPET_BYTES: usize = 300;

/// Error message for a non-success HTTP status.
pub open spec fn status_error_spec(endpoint: Seq<char>, status: Seq<char>, body: Seq<char>) -> Seq<
    char,
> {
    "/"@ + endpoint + " returned "@ + status + ": "@ + truncate_spec(body, BODY_SNIPPET_BYTES as int)
}

/// `/{endpoint} returned {status}: {body, truncated}`.
pub fn status_error(endpoint: &str, status: &str, body: &str) -> (r: String)
    requires
        truncate_allowed(body@, BODY_SNIPPET_BYTES as int),
    ensures
        r@ == status_error_spec(endpoint@, status@, body@),
{
    let mut r = "/".to_owned();
    r.append(endpoint);
    r.append(" returned ");
    r.append(status);
    r.append(": ");
    let t = truncate(body, BODY_SNIPPET_BYTES);
    r.append(t.as_str());
    r
}

/// Check of an HTTP reply's status: `Ok` on success, otherwise the error
/// message naming the endpoint, the status and the start of the body.
pub fn check_status(endpoint: &str, success: bool, status: &str, body: &str) -> (r: Result<
    (),
    String,
>)
    requires
        !success ==> truncate_allowed(body@, BODY_SNIPPET_BYTES as int),
    ensures
        success ==> r is Ok,
        !success ==> (r matches Err(m) && m@ == status_error_spec(endpoint@, status@, body@)),
{
    if success {
        Ok(())
    } else {
        Err(status_error(endpoint, status, body))
    }
}

/// Error message for a `/pair` reply whose `ok` flag is false.
pub open spec fn pair_refused_spec(body: Seq<char>) -> Seq<char> {
    "/pair returned ok=false: "@ + truncate_spec(body, BODY_SNIPPET_BYTES as int)
}

/// Accept a parsed `/pair` reply only when its `ok` flag is set.
pub fn accept_pair_response(parsed: PairResponse, body: &str) -> (r: Result<PairResponse, String>)
    requires
        !parsed.ok ==> truncate_allowed(body@, BODY_SNIPPET_BYTES as int),
    ensures
        parsed.ok ==> r == Ok::<PairResponse, String>(parsed),
        !parsed.ok ==> (r matches Err(m) && m@ == pair_refused_spec(body@)),
{
    if parsed.ok {
        Ok(parsed)
    } else {
        let mut m = "/pair returned ok=false: ".to_owned();
        let t = truncate(body, BODY_SNIPPET_BYTES);
        m.append(t.as_str());
        Err(m)
    }
}

/// Production backend, the default of release builds.
pub const DEFAULT_API_BASE: &'static str = "https://app.kefilex.com";

/// Local development backend, the default of dev builds.
pub const DEV_API_BASE: &'static str = "http://localhost:3000";

/// The backend base URL: the configured override if there is one; otherwise
/// the local backend in a dev build and production in a release build.
pub fn api_base_or_default(configured: Option<String>, dev_build: bool) -> (r: String)
    ensures
        r@ == (match configured {
            Some(v) => v@,
            None => if dev_build {
                DEV_API_BASE@
            } else {
                DEFAULT_API_BASE@
            },
        }),
{
    match configured {
        Some(v) => v,
        None => if dev_build {
            DEV_API_BASE.to_owned()
        } else {
            DEFAULT_API_BASE.to_owned()
        },
    }
}

/// `KefilexDesk/{version} ({os})`, the HTTP user agent.
pub open spec fn user_agent_spec(version: Seq<char>, os: Seq<char>) -> Seq<char> {
    "KefilexDesk/"@ + version + " ("@ + os + ")"@
}

/// The HTTP user agent for an app version and operating system.
pub fn user_agent(version: &str, os: &str) -> (r: String)
    ensures
        r@ == user_agent_spec(version@, os@),
{
    let mut r = "KefilexDesk/".to_owned();
    r.append(version);
    r.append(" (");
    r.append(os);
    r.append(")");
    r
}

/// Truncation keeps the start of the text: a text of at most `max` bytes is
/// kept whole, and a longer one becomes a prefix of it that takes exactly
/// `max` bytes in UTF-8, followed by `…`.
pub proof fn law_truncate_keeps_prefix(s: Seq<char>, max: int)
    requires
        0 <= max,
        truncate_allowed(s, max),
    ensures
        encode_utf8(s).len() <= max ==> truncate_spec(s, max) == s,
        encode_utf8(s).len() > max ==> exists|n: int|
            0 <= n < s.len() && encode_utf8(s.take(n)).len() == max && truncate_spec(s, max) == s.take(n)
                + "…"@,
{
    let b = encode_utf8(s);
    if b.len() > max {
        let d = decode_utf8(b.subrange(0, max));
        let rest = decode_utf8(b.subrange(max, b.len() as int));
        assert(s == d + rest);
        assert(s.take(d.len() as int) =~= d);
        assert(encode_utf8(d) == b.subrange(0, max));
        if rest.len() == 0 {
            assert(s =~= d);
        }
        assert(truncate_spec(s, max) == s.take(d.len() as int) + "…"@);
    }
}

} // verus!
