//! Built-in registry of VoIP softphone notification patterns, and the matcher
//! that turns an OS notification into the caller details of a call event.
//!
//! A notification is read only when its source application id contains one
//! of a filter's application patterns (case-insensitively) AND the filter's
//! text pattern matches `"{title} — {body}"` (both trimmed). Filters are tried
//! in registry order and the first one that fits wins; every other
//! notification is dropped.

use vstd::prelude::*;
use crate::text::{
    all_ascii, ascii_lower,
    occurs_at,
    trim_end_spec, trim_start_spec,
    char_is_white_space, chars_of, contains_chars, is_ascii_digit, is_ascii_digit_spec, seq_contains,
    lowercase_spec, string_of, trim_chars, trim_spec, trim_str,
};

verus! {

// ── Text patterns ───────────────────────────────────────────────────────────
// Named groups `phone` and `name` carry the caller details when present.
// VXT's missed-call toast has an empty body, so the combined text ends in the
// join separator; its name group stops at separator characters, white space
// or a pipe so that the separator is not captured with the name.
pub const VXT_MISSED: &'static str = r"(?i)Missed call from\s+(?:(?P<phone>\+?[\d\s().-]{6,30})|(?P<name>[^\s|—–-][^|—–\n]*?))(?:\s*[—–|\-]|\s*$)";
pub const VXT_VOICEMAIL: &'static str = r"(?i)(?:new voicemail|voicemail received).*?from\s+(?:(?P<phone>\+?[\d\s().-]{6,30})|(?P<name>[^\n]+?))$";
pub const VXT_INCOMING: &'static str = r"(?i)(?:Incoming call from|is calling)\s*(?:[—–-]\s*)?(?:(?P<phone>\+?[\d\s().-]{6,30})|(?P<name>[^\n]+?))$";
pub const RINGCENTRAL_INCOMING: &'static str = r"(?i)incoming call from\s+(?P<name>[^—–\n]+?)(?:\s*[—–-]\s*(?P<phone>\+?[\d\s().-]{6,30}))?$";
pub const RINGCENTRAL_MISSED: &'static str = r"(?i)missed call from\s+(?:(?P<phone>\+?[\d\s().-]{6,30})|(?P<name>[^\n]+?))$";
pub const AIRCALL_INCOMING_NAME_AND_PHONE: &'static str = r"(?i)incoming call from\s+(?P<name>[^•—–\n]+?)\s*[•—–\-]\s*(?P<phone>\+?[\d\s().-]{6,30})\s*$";
pub const AIRCALL_INCOMING: &'static str = r"(?i)incoming call from\s+(?:(?P<phone>\+?[\d\s().-]{6,30})|(?P<name>[^\n]+?))\s*$";
pub const AIRCALL_MISSED_NAME_AND_PHONE: &'static str = r"(?i)missed call from\s+(?P<name>[^•—–\n]+?)\s*[•—–\-]\s*(?P<phone>\+?[\d\s().-]{6,30})\s*$";
pub const AIRCALL_MISSED: &'static str = r"(?i)missed call from\s+(?:(?P<phone>\+?[\d\s().-]{6,30})|(?P<name>[^\n]+?))\s*$";
pub const TEAMS_INCOMING: &'static str = r"(?i)(?:incoming call from|calling)\s+(?P<name>[^—–\n]+?)(?:\s*[—–-]\s*(?P<phone>\+?[\d\s().-]{6,30}))?$";
pub const ZOOM_INCOMING: &'static str = r"(?i)incoming call from\s+(?P<name>[^—–\n]+?)(?:\s*[—–-]\s*(?P<phone>\+?[\d\s().-]{6,30}))?$";
pub const DIALPAD_CALLING: &'static str = r"(?i)(?P<name>.+?)\s+is calling.*?(?P<phone>\+?[\d\s().-]{6,30})?";
pub const EIGHT_BY_EIGHT_INCOMING_NAME_AND_PHONE: &'static str = r"(?i)incoming call from\s+(?P<name>[^•—–\n]+?)\s*[•—–\-]\s*(?P<phone>\+?[\d\s().-]{6,30})\s*$";
pub const EIGHT_BY_EIGHT_INCOMING: &'static str = r"(?i)incoming call from\s+(?:(?P<phone>\+?[\d\s().-]{6,30})|(?P<name>[^\n]+?))\s*$";
pub const EIGHT_BY_EIGHT_MISSED_NAME_AND_PHONE: &'static str = r"(?i)missed call from\s+(?P<name>[^•—–\n]+?)\s*[•—–\-]\s*(?P<phone>\+?[\d\s().-]{6,30})\s*$";
pub const EIGHT_BY_EIGHT_MISSED: &'static str = r"(?i)missed call from\s+(?:(?P<phone>\+?[\d\s().-]{6,30})|(?P<name>[^\n]+?))\s*$";
pub const WEBEX_INCOMING: &'static str = r"(?i)incoming call from\s+(?P<name>[^—–\n]+?)(?:\s*[—–-]\s*(?P<phone>\+?[\d\s().-]{6,30}))?$";

/// One registry entry: which application it listens to and how its text is read.
#[derive(Debug, Clone)]
pub struct VoipFilter {
    /// Display name of the softphone, sent as the `source_app` of the event.
    pub display_name: &'static str,
    /// Application-id substrings, compared case-insensitively.
    pub app_id_patterns: &'static [&'static str],
    /// Regular expression over `"{title} — {body}"`, with optional named
    /// groups `phone` and `name`.
    pub text_pattern: &'static str,
    /// Event type reported when the filter matches: one of `ringing`,
    /// `answered`, `missed`, `voicemail`, `ended`.
    pub event_type: &'static str,
}

/// The mathematical content of a [`VoipFilter`].
pub struct FilterSpec {
    pub display_name: Seq<char>,
    pub app_id_patterns: Seq<Seq<char>>,
    pub text_pattern: Seq<char>,
    pub event_type: Seq<char>,
}

impl View for VoipFilter {
    type V = FilterSpec;

    open spec fn view(&self) -> FilterSpec {
        FilterSpec {
            display_name: self.display_name@,
            app_id_patterns: self.app_id_patterns@.map_values(|p: &str| p@),
            text_pattern: self.text_pattern@,
            event_type: self.event_type@,
        }
    }
}

/// The registry, in the order in which it is consulted. More specific
/// entries come before more general ones for the same softphone.
pub open spec fn builtin_registry() -> Seq<FilterSpec> {
    seq![
        FilterSpec {
            display_name: "VXT"@,
            app_id_patterns: seq!["vxt"@],
            text_pattern: VXT_MISSED@,
            event_type: "missed"@,
        },
        FilterSpec {
            display_name: "VXT"@,
            app_id_patterns: seq!["vxt"@],
            text_pattern: VXT_VOICEMAIL@,
            event_type: "voicemail"@,
        },
        FilterSpec {
            display_name: "VXT"@,
            app_id_patterns: seq!["vxt"@],
            text_pattern: VXT_INCOMING@,
            event_type: "ringing"@,
        },
        FilterSpec {
            display_name: "RingCentral"@,
            app_id_patterns: seq!["ringcentral"@, "com.ringcentral.app"@],
            text_pattern: RINGCENTRAL_INCOMING@,
            event_type: "ringing"@,
        },
        FilterSpec {
            display_name: "RingCentral"@,
            app_id_patterns: seq!["ringcentral"@, "com.ringcentral.app"@],
            text_pattern: RINGCENTRAL_MISSED@,
            event_type: "missed"@,
        },
        FilterSpec {
            display_name: "Aircall"@,
            app_id_patterns: seq!["aircall"@, "com.aircall.desktop"@],
            text_pattern: AIRCALL_INCOMING_NAME_AND_PHONE@,
            event_type: "ringing"@,
        },
        FilterSpec {
            display_name: "Aircall"@,
            app_id_patterns: seq!["aircall"@, "com.aircall.desktop"@],
            text_pattern: AIRCALL_INCOMING@,
            event_type: "ringing"@,
        },
        FilterSpec {
            display_name: "Aircall"@,
            app_id_patterns: seq!["aircall"@, "com.aircall.desktop"@],
            text_pattern: AIRCALL_MISSED_NAME_AND_PHONE@,
            event_type: "missed"@,
        },
        FilterSpec {
            display_name: "Aircall"@,
            app_id_patterns: seq!["aircall"@, "com.aircall.desktop"@],
            text_pattern: AIRCALL_MISSED@,
            event_type: "missed"@,
        },
        FilterSpec {
            display_name: "Microsoft Teams"@,
            app_id_patterns: seq!["microsoft.teams"@, "com.microsoft.teams"@, "teams"@],
            text_pattern: TEAMS_INCOMING@,
            event_type: "ringing"@,
        },
        FilterSpec {
            display_name: "Zoom Phone"@,
            app_id_patterns: seq!["zoom"@, "us.zoom.xos"@, "com.zoom.phone"@],
            text_pattern: ZOOM_INCOMING@,
            event_type: "ringing"@,
        },
        FilterSpec {
            display_name: "Dialpad"@,
            app_id_patterns: seq!["dialpad"@, "com.dialpad.desktop"@],
            text_pattern: DIALPAD_CALLING@,
            event_type: "ringing"@,
        },
        FilterSpec {
            display_name: "8x8"@,
            app_id_patterns: seq!["8x8"@, "com.8x8.work"@],
            text_pattern: EIGHT_BY_EIGHT_INCOMING_NAME_AND_PHONE@,
            event_type: "ringing"@,
        },
        FilterSpec {
            display_name: "8x8"@,
            app_id_patterns: seq!["8x8"@, "com.8x8.work"@],
            text_pattern: EIGHT_BY_EIGHT_INCOMING@,
            event_type: "ringing"@,
        },
        FilterSpec {
            display_name: "8x8"@,
            app_id_patterns: seq!["8x8"@, "com.8x8.work"@],
            text_pattern: EIGHT_BY_EIGHT_MISSED_NAME_AND_PHONE@,
            event_type: "missed"@,
        },
        FilterSpec {
            display_name: "8x8"@,
            app_id_patterns: seq!["8x8"@, "com.8x8.work"@],
            text_pattern: EIGHT_BY_EIGHT_MISSED@,
            event_type: "missed"@,
        },
        FilterSpec {
            display_name: "Cisco Webex Calling"@,
            app_id_patterns: seq!["webex"@, "com.cisco.webex"@, "cisco.webex"@],
            text_pattern: WEBEX_INCOMING@,
            event_type: "ringing"@,
        },
    ]
}

/// The views of a sequence of filters.
pub open spec fn filters_view(fs: Seq<VoipFilter>) -> Seq<FilterSpec> {
    fs.map_values(|f: VoipFilter| f@)
}

/// The built-in filter registry.
pub fn builtin_filters() -> (r: &'static [VoipFilter])
    ensures
        filters_view(r@) == builtin_registry(),
        r@.len() == builtin_registry().len(),
{
    let r: &'static [VoipFilter] = &[
        VoipFilter {
            display_name: "VXT",
            app_id_patterns: &["vxt"],
            text_pattern: VXT_MISSED,
            event_type: "missed",
        },
        VoipFilter {
            display_name: "VXT",
            app_id_patterns: &["vxt"],
            text_pattern: VXT_VOICEMAIL,
            event_type: "voicemail",
        },
        VoipFilter {
            display_name: "VXT",
            app_id_patterns: &["vxt"],
            text_pattern: VXT_INCOMING,
            event_type: "ringing",
        },
        VoipFilter {
            display_name: "RingCentral",
            app_id_patterns: &["ringcentral", "com.ringcentral.app"],
            text_pattern: RINGCENTRAL_INCOMING,
            event_type: "ringing",
        },
        VoipFilter {
            display_name: "RingCentral",
            app_id_patterns: &["ringcentral", "com.ringcentral.app"],
            text_pattern: RINGCENTRAL_MISSED,
            event_type: "missed",
        },
        VoipFilter {
            display_name: "Aircall",
            app_id_patterns: &["aircall", "com.aircall.desktop"],
            text_pattern: AIRCALL_INCOMING_NAME_AND_PHONE,
            event_type: "ringing",
        },
        VoipFilter {
            display_name: "Aircall",
            app_id_patterns: &["aircall", "com.aircall.desktop"],
            text_pattern: AIRCALL_INCOMING,
            event_type: "ringing",
        },
        VoipFilter {
            display_name: "Aircall",
            app_id_patterns: &["aircall", "com.aircall.desktop"],
            text_pattern: AIRCALL_MISSED_NAME_AND_PHONE,
            event_type: "missed",
        },
        VoipFilter {
            display_name: "Aircall",
            app_id_patterns: &["aircall", "com.aircall.desktop"],
            text_pattern: AIRCALL_MISSED,
            event_type: "missed",
        },
        VoipFilter {
            display_name: "Microsoft Teams",
            app_id_patterns: &["microsoft.teams", "com.microsoft.teams", "teams"],
            text_pattern: TEAMS_INCOMING,
            event_type: "ringing",
        },
        VoipFilter {
            display_name: "Zoom Phone",
            app_id_patterns: &["zoom", "us.zoom.xos", "com.zoom.phone"],
            text_pattern: ZOOM_INCOMING,
            event_type: "ringing",
        },
        VoipFilter {
            display_name: "Dialpad",
            app_id_patterns: &["dialpad", "com.dialpad.desktop"],
            text_pattern: DIALPAD_CALLING,
            event_type: "ringing",
        },
        VoipFilter {
            display_name: "8x8",
            app_id_patterns: &["8x8", "com.8x8.work"],
            text_pattern: EIGHT_BY_EIGHT_INCOMING_NAME_AND_PHONE,
            event_type: "ringing",
        },
        VoipFilter {
            display_name: "8x8",
            app_id_patterns: &["8x8", "com.8x8.work"],
            text_pattern: EIGHT_BY_EIGHT_INCOMING,
            event_type: "ringing",
        },
        VoipFilter {
            display_name: "8x8",
            app_id_patterns: &["8x8", "com.8x8.work"],
            text_pattern: EIGHT_BY_EIGHT_MISSED_NAME_AND_PHONE,
            event_type: "missed",
        },
        VoipFilter {
            display_name: "8x8",
            app_id_patterns: &["8x8", "com.8x8.work"],
            text_pattern: EIGHT_BY_EIGHT_MISSED,
            event_type: "missed",
        },
        VoipFilter {
            display_name: "Cisco Webex Calling",
            app_id_patterns: &["webex", "com.cisco.webex", "cisco.webex"],
            text_pattern: WEBEX_INCOMING,
            event_type: "ringing",
        },
    ];
    proof {
        assert(r@[0]@.app_id_patterns =~= seq!["vxt"@]);
        assert(r@[1]@.app_id_patterns =~= seq!["vxt"@]);
        assert(r@[2]@.app_id_patterns =~= seq!["vxt"@]);
        assert(r@[3]@.app_id_patterns =~= seq!["ringcentral"@, "com.ringcentral.app"@]);
        assert(r@[4]@.app_id_patterns =~= seq!["ringcentral"@, "com.ringcentral.app"@]);
        assert(r@[5]@.app_id_patterns =~= seq!["aircall"@, "com.aircall.desktop"@]);
        assert(r@[6]@.app_id_patterns =~= seq!["aircall"@, "com.aircall.desktop"@]);
        assert(r@[7]@.app_id_patterns =~= seq!["aircall"@, "com.aircall.desktop"@]);
        assert(r@[8]@.app_id_patterns =~= seq!["aircall"@, "com.aircall.desktop"@]);
        assert(r@[9]@.app_id_patterns =~= seq!["microsoft.teams"@, "com.microsoft.teams"@, "teams"@]);
        assert(r@[10]@.app_id_patterns =~= seq!["zoom"@, "us.zoom.xos"@, "com.zoom.phone"@]);
        assert(r@[11]@.app_id_patterns =~= seq!["dialpad"@, "com.dialpad.desktop"@]);
        assert(r@[12]@.app_id_patterns =~= seq!["8x8"@, "com.8x8.work"@]);
        assert(r@[13]@.app_id_patterns =~= seq!["8x8"@, "com.8x8.work"@]);
        assert(r@[14]@.app_id_patterns =~= seq!["8x8"@, "com.8x8.work"@]);
        assert(r@[15]@.app_id_patterns =~= seq!["8x8"@, "com.8x8.work"@]);
        assert(r@[16]@.app_id_patterns =~= seq!["webex"@, "com.cisco.webex"@, "cisco.webex"@]);
    }
    assert(filters_view(r@) =~= builtin_registry());
    r
}

/// Result of a successful match.
#[derive(Debug, Clone)]
pub struct FilterMatch {
    pub source_app: &'static str,
    pub caller_phone_e164: Option<String>,
    pub caller_display_name: Option<String>,
    /// Event type to report, taken from the matched filter.
    pub event_type: &'static str,
}

/// The mathematical content of a [`FilterMatch`].
pub struct FilterMatchView {
    pub source_app: Seq<char>,
    pub caller_phone_e164: Option<Seq<char>>,
    pub caller_display_name: Option<Seq<char>>,
    pub event_type: Seq<char>,
}

impl View for FilterMatch {
    type V = FilterMatchView;

    open spec fn view(&self) -> FilterMatchView {
        FilterMatchView {
            source_app: self.source_app@,
            caller_phone_e164: self.caller_phone_e164.deep_view(),
            caller_display_name: self.caller_display_name.deep_view(),
            event_type: self.event_type@,
        }
    }
}

/// The view of an optional match.
pub open spec fn match_result_view(r: Option<FilterMatch>) -> Option<FilterMatchView> {
    match r {
        Some(m) => Some(m@),
        None => None,
    }
}

// ── Phone normalisation ─────────────────────────────────────────────────────

/// The ASCII digits of `s`, in order.
pub open spec fn digits_only(s: Seq<char>) -> Seq<char>
    decreases s.len(),
{
    if s.len() == 0 {
        s
    } else {
        let rest = digits_only(s.drop_last());
        if is_ascii_digit_spec(s.last()) {
            rest.push(s.last())
        } else {
            rest
        }
    }
}

/// A captured phone number with its decoration removed: a leading `+` is
/// kept, then only the ASCII digits.
pub open spec fn normalise_phone_spec(raw: Seq<char>) -> Seq<char> {
    if raw.len() > 0 && raw[0] == '+' {
        seq!['+'] + digits_only(raw.drop_first())
    } else {
        digits_only(raw)
    }
}

/// Strip white space and decorative characters from a captured phone number,
/// keeping a leading `+` and the digits.
pub fn normalise_phone(raw: &str) -> (r: String)
    ensures
        r@ == normalise_phone_spec(raw@),
{
    let v = chars_of(raw);
    let mut out = String::new();
    let mut start: usize = 0;
    if v.len() > 0 && v[0] == '+' {
        out.push('+');
        start = 1;
    }
    let ghost prefix = out@;
    let mut i: usize = start;
    assert(v@.subrange(start as int, start as int) =~= Seq::<char>::empty());
    while i < v.len()
        invariant
            start <= i <= v.len(),
            out@ == prefix + digits_only(v@.subrange(start as int, i as int)),
        decreases v.len() - i,
    {
        let c = v[i];
        assert(v@.subrange(start as int, i + 1).drop_last() =~= v@.subrange(
            start as int,
            i as int,
        ));
        if is_ascii_digit(c) {
            out.push(c);
        }
        i = i + 1;
    }
    proof {
        if start == 1 {
            assert(v@.subrange(1, v@.len() as int) =~= v@.drop_first());
            assert(prefix =~= seq!['+']);
        } else {
            assert(v@.subrange(0, v@.len() as int) =~= v@);
            assert(prefix =~= Seq::<char>::empty());
        }
    }
    out
}

// ── Matching ────────────────────────────────────────────────────────────────

/// The text a filter's pattern is run against.
pub open spec fn combined_text(title: Seq<char>, body: Seq<char>) -> Seq<char> {
    trim_spec(title) + " — "@ + trim_spec(body)
}

/// Some pattern of `f` occurs in the lower-cased application id `app_lower`
/// once that pattern is lower-cased too.
pub open spec fn patterns_hit(app_lower: Seq<char>, f: FilterSpec) -> bool {
    exists|k: int|
        0 <= k < f.app_id_patterns.len() && seq_contains(
            app_lower,
            lowercase_spec(#[trigger] f.app_id_patterns[k]),
        )
}

/// The filter listens to the application `app_id` (case-insensitive substring).
pub open spec fn app_matches(app_id: Seq<char>, f: FilterSpec) -> bool {
    patterns_hit(lowercase_spec(app_id), f)
}

/// Whether the regular expression `pattern` matches somewhere in `text`, and
/// if so what the named groups `group_a` and `group_b` captured in the
/// leftmost-first match (`None` for a group that did not take part, or for a
/// pattern that does not compile).
pub uninterp spec fn regex_captures(
    pattern: Seq<char>,
    text: Seq<char>,
    group_a: Seq<char>,
    group_b: Seq<char>,
) -> Option<(Option<Seq<char>>, Option<Seq<char>>)>;

/// Runs the `regex` crate: `Regex::new(pattern)` then `Regex::captures(text)`,
/// and reads the named groups `group_a` and `group_b` of that match with
/// `Captures::name` and `Match::as_str`. The result is a function of the four
/// arguments alone, named `regex_captures`; of it, only the documented fact
/// that `Match::as_str` returns a substring of the searched text is stated,
/// nothing more of the regex engine. A pattern that fails to compile gives
/// `None`.
#[verifier::external_body]
fn regex_captures_exec(pattern: &str, text: &str, group_a: &str, group_b: &str) -> (r: Option<
    (Option<String>, Option<String>),
>)
    ensures
        r.deep_view() == regex_captures(pattern@, text@, group_a@, group_b@),
        r matches Some(c) ==> (c.0 matches Some(a) ==> seq_contains(text@, a@)),
        r matches Some(c) ==> (c.1 matches Some(b) ==> seq_contains(text@, b@)),
{
    let re = regex::Regex::new(pattern).ok()?;
    let caps = re.captures(text)?;
    Some(
        (
            caps.name(group_a).map(|m| m.as_str().to_string()),
            caps.name(group_b).map(|m| m.as_str().to_string()),
        ),
    )
}

/// The captures of filter `f` on `text`, with the groups `phone` and `name`.
pub open spec fn filter_captures(f: FilterSpec, text: Seq<char>) -> Option<
    (Option<Seq<char>>, Option<Seq<char>>),
> {
    regex_captures(f.text_pattern, text, "phone"@, "name"@)
}

/// `None` for an empty string.
pub open spec fn non_empty(s: Option<Seq<char>>) -> Option<Seq<char>> {
    match s {
        Some(x) => if x.len() > 0 {
            Some(x)
        } else {
            None
        },
        None => None,
    }
}

/// The phone field of a match, from the raw `phone` capture.
pub open spec fn phone_field(raw: Option<Seq<char>>) -> Option<Seq<char>> {
    match raw {
        Some(p) => non_empty(Some(normalise_phone_spec(p))),
        None => None,
    }
}

/// The display-name field of a match, from the raw `name` capture.
pub open spec fn name_field(raw: Option<Seq<char>>) -> Option<Seq<char>> {
    match raw {
        Some(n) => non_empty(Some(trim_spec(n))),
        None => None,
    }
}

/// The match reported for filter `f` given its raw captures.
pub open spec fn match_view(
    f: FilterSpec,
    phone: Option<Seq<char>>,
    name: Option<Seq<char>>,
) -> FilterMatchView {
    FilterMatchView {
        source_app: f.display_name,
        caller_phone_e164: phone_field(phone),
        caller_display_name: name_field(name),
        event_type: f.event_type,
    }
}

/// Filter `f` accepts the notification: it listens to the application and
/// its pattern matches the text.
pub open spec fn filter_accepts(f: FilterSpec, app_id: Seq<char>, text: Seq<char>) -> bool {
    app_matches(app_id, f) && filter_captures(f, text) is Some
}

/// First-match-wins search of `filters` from position `i` on.
pub open spec fn match_from(filters: Seq<FilterSpec>, i: int, app_id: Seq<char>, text: Seq<char>) -> Option<
    FilterMatchView,
>
    decreases filters.len() - i,
{
    if i < 0 || i >= filters.len() {
        None
    } else if filter_accepts(filters[i], app_id, text) {
        let caps = filter_captures(filters[i], text).unwrap();
        Some(match_view(filters[i], caps.0, caps.1))
    } else {
        match_from(filters, i + 1, app_id, text)
    }
}

/// What [`match_notification`] reports for a notification.
pub open spec fn notification_match(app_id: Seq<char>, title: Seq<char>, body: Seq<char>) -> Option<
    FilterMatchView,
> {
    match_from(builtin_registry(), 0, app_id, combined_text(title, body))
}

/// Build the match of `filter` from the raw `phone` and `name` captures:
/// the phone is normalised, the name trimmed, and an empty result is dropped.
pub fn filter_match_from_captures(
    filter: &VoipFilter,
    phone: Option<String>,
    name: Option<String>,
) -> (m: FilterMatch)
    ensures
        m@ == match_view(filter@, phone.deep_view(), name.deep_view()),
{
    let caller_phone_e164 = match phone {
        Some(p) => {
            let n = normalise_phone(p.as_str());
            if n.unicode_len() > 0 {
                Some(n)
            } else {
                None
            }
        },
        None => None,
    };
    let caller_display_name = match name {
        Some(x) => {
            let t = trim_str(x.as_str());
            if t.as_str().unicode_len() > 0 {
                Some(t)
            } else {
                None
            }
        },
        None => None,
    };
    FilterMatch {
        source_app: filter.display_name,
        caller_phone_e164,
        caller_display_name,
        event_type: filter.event_type,
    }
}

/// Whether some pattern of `filter` occurs in the lower-cased application id.
pub fn filter_listens_to(app_lower: &Vec<char>, filter: &VoipFilter) -> (r: bool)
    ensures
        r == patterns_hit(app_lower@, filter@),
{
    let pats = filter.app_id_patterns;
    let mut k: usize = 0;
    while k < pats.len()
        invariant
            pats@ == filter.app_id_patterns@,
            k <= pats.len(),
            forall|j: int|
                0 <= j < k ==> !seq_contains(app_lower@, lowercase_spec(#[trigger] pats@[j]@)),
        decreases pats.len() - k,
    {
        let lower = pats[k].to_lowercase();
        let lv = chars_of(lower.as_str());
        if contains_chars(app_lower, &lv) {
            assert(filter@.app_id_patterns[k as int] == pats@[k as int]@);
            return true;
        }
        k = k + 1;
    }
    assert forall|j: int| 0 <= j < filter@.app_id_patterns.len() implies !seq_contains(
        app_lower@,
        lowercase_spec(#[trigger] filter@.app_id_patterns[j]),
    ) by {
        assert(filter@.app_id_patterns[j] == pats@[j]@);
    }
    false
}

/// The lower-cased characters of an application id.
pub fn lowered_chars(app_id: &str) -> (r: Vec<char>)
    ensures
        r@ == lowercase_spec(app_id@),
{
    let lower = app_id.to_lowercase();
    chars_of(lower.as_str())
}

/// `"{title} — {body}"` with both parts trimmed.
pub fn combine_title_body(title: &str, body: &str) -> (r: String)
    ensures
        r@ == combined_text(title@, body@),
{
    let mut v = trim_chars(&chars_of(title));
    let mut sep = chars_of(" — ");
    let mut b = trim_chars(&chars_of(body));
    v.append(&mut sep);
    v.append(&mut b);
    string_of(&v)
}

/// Returns the match of the first registry filter that listens to `app_id`
/// and whose text pattern matches `"{title} — {body}"` (both trimmed), or
/// `None` when no filter does.
///
/// What is reported comes from the notification itself: a display name is
/// a piece of the combined text, and a phone number is the normalised form
/// of a piece of it.
pub fn match_notification(app_id: &str, title: &str, body: &str) -> (r: Option<FilterMatch>)
    ensures
        match_result_view(r) == notification_match(app_id@, title@, body@),
        r matches Some(m) ==> (m.caller_display_name matches Some(n) ==> seq_contains(
            combined_text(title@, body@),
            n@,
        )),
        r matches Some(m) ==> (m.caller_phone_e164 matches Some(p) ==> exists|raw: Seq<char>|
            seq_contains(combined_text(title@, body@), raw) && p@ == #[trigger] normalise_phone_spec(
                raw,
            )),
{
    let app_lower = lowered_chars(app_id);
    let combined = combine_title_body(title, body);
    let filters = builtin_filters();
    let ghost reg = builtin_registry();
    let ghost text = combined_text(title@, body@);
    let mut i: usize = 0;
    while i < filters.len()
        invariant
            filters_view(filters@) == reg,
            reg == builtin_registry(),
            combined@ == text,
            text == combined_text(title@, body@),
            app_lower@ == lowercase_spec(app_id@),
            i <= filters.len(),
            match_from(reg, 0, app_id@, text) == match_from(reg, i as int, app_id@, text),
        decreases filters.len() - i,
    {
        let filter = &filters[i];
        assert(reg[i as int] == filter@);
        if filter_listens_to(&app_lower, filter) {
            let caps = regex_captures_exec(filter.text_pattern, combined.as_str(), "phone", "name");
            match caps {
                Some(pair) => {
                    let (phone, name) = pair;
                    let ghost pv = phone.deep_view();
                    let ghost nv = name.deep_view();
                    let m = filter_match_from_captures(filter, phone, name);
                    proof {
                        if let Some(x) = nv {
                            lemma_trim_within(x);
                            lemma_contains_transitive(text, x, trim_spec(x));
                        }
                        if let Some(raw) = pv {
                            assert(seq_contains(text, raw));
                        }
                    }
                    return Some(m);
                },
                None => {},
            }
        }
        i = i + 1;
    }
    None
}

// ── Process and application-id lookups ──────────────────────────────────────

/// Display name of the first filter from position `i` on that listens to `app_id`.
pub open spec fn first_listener_from(filters: Seq<FilterSpec>, i: int, app_id: Seq<char>) -> Option<
    Seq<char>,
>
    decreases filters.len() - i,
{
    if i < 0 || i >= filters.len() {
        None
    } else if app_matches(app_id, filters[i]) {
        Some(filters[i].display_name)
    } else {
        first_listener_from(filters, i + 1, app_id)
    }
}

/// Some registry filter listens to `app_id`.
pub open spec fn is_voip_app_id_spec(app_id: Seq<char>) -> bool {
    exists|k: int| 0 <= k < builtin_registry().len() && app_matches(app_id, #[trigger] builtin_registry()[k])
}

/// The view of an optional static string.
pub open spec fn opt_str_view(r: Option<&'static str>) -> Option<Seq<char>> {
    match r {
        Some(s) => Some(s@),
        None => None,
    }
}

/// True if the application id (or process name) contains, case-insensitively,
/// an application pattern of some registry filter.
pub fn is_voip_app_id(app_id: &str) -> (r: bool)
    ensures
        r == is_voip_app_id_spec(app_id@),
{
    let lower = lowered_chars(app_id);
    let filters = builtin_filters();
    let ghost reg = builtin_registry();
    let mut i: usize = 0;
    while i < filters.len()
        invariant
            filters_view(filters@) == reg,
            reg == builtin_registry(),
            lower@ == lowercase_spec(app_id@),
            i <= filters.len(),
            forall|j: int| 0 <= j < i ==> !app_matches(app_id@, #[trigger] reg[j]),
        decreases filters.len() - i,
    {
        assert(reg[i as int] == filters@[i as int]@);
        if filter_listens_to(&lower, &filters[i]) {
            return true;
        }
        i = i + 1;
    }
    false
}

/// Match a process executable name against the registry's application
/// patterns: the display name of the first filter that has a pattern
/// contained (case-insensitively) in the name.
pub fn match_voip_process(process_name: &str) -> (r: Option<&'static str>)
    ensures
        opt_str_view(r) == first_listener_from(builtin_registry(), 0, process_name@),
{
    let lower = lowered_chars(process_name);
    let filters = builtin_filters();
    let ghost reg = builtin_registry();
    let mut i: usize = 0;
    while i < filters.len()
        invariant
            filters_view(filters@) == reg,
            reg == builtin_registry(),
            lower@ == lowercase_spec(process_name@),
            i <= filters.len(),
            first_listener_from(reg, 0, process_name@) == first_listener_from(
                reg,
                i as int,
                process_name@,
            ),
        decreases filters.len() - i,
    {
        assert(reg[i as int] == filters@[i as int]@);
        if filter_listens_to(&lower, &filters[i]) {
            return Some(filters[i].display_name);
        }
        i = i + 1;
    }
    None
}

// ── Laws ────────────────────────────────────────────────────────────────────

proof fn lemma_match_from_first(
    filters: Seq<FilterSpec>,
    i: int,
    k: int,
    app_id: Seq<char>,
    text: Seq<char>,
)
    requires
        0 <= i <= k < filters.len(),
        filter_accepts(filters[k], app_id, text),
        forall|j: int| i <= j < k ==> !filter_accepts(#[trigger] filters[j], app_id, text),
    ensures
        match_from(filters, i, app_id, text) == Some(
            match_view(
                filters[k],
                filter_captures(filters[k], text).unwrap().0,
                filter_captures(filters[k], text).unwrap().1,
            ),
        ),
    decreases k - i,
{
    if i < k {
        lemma_match_from_first(filters, i + 1, k, app_id, text);
    }
}

proof fn lemma_match_from_none(filters: Seq<FilterSpec>, i: int, app_id: Seq<char>, text: Seq<char>)
    requires
        0 <= i <= filters.len(),
        forall|j: int| i <= j < filters.len() ==> !filter_accepts(#[trigger] filters[j], app_id, text),
    ensures
        match_from(filters, i, app_id, text) is None,
    decreases filters.len() - i,
{
    if i < filters.len() {
        lemma_match_from_none(filters, i + 1, app_id, text);
    }
}

proof fn lemma_match_from_some(filters: Seq<FilterSpec>, i: int, app_id: Seq<char>, text: Seq<char>)
    requires
        0 <= i <= filters.len(),
        match_from(filters, i, app_id, text) is Some,
    ensures
        exists|k: int| i <= k < filters.len() && #[trigger] filter_accepts(filters[k], app_id, text),
    decreases filters.len() - i,
{
    if !filter_accepts(filters[i], app_id, text) {
        lemma_match_from_some(filters, i + 1, app_id, text);
    }
}

/// First match wins: when filter `k` is the first registry filter that listens
/// to the application and whose pattern matches the text, the notification is
/// reported with filter `k`'s softphone, event type and captures.
pub proof fn law_first_match_wins(app_id: Seq<char>, title: Seq<char>, body: Seq<char>, k: int)
    requires
        0 <= k < builtin_registry().len(),
        filter_accepts(builtin_registry()[k], app_id, combined_text(title, body)),
        forall|j: int|
            0 <= j < k ==> !filter_accepts(
                #[trigger] builtin_registry()[j],
                app_id,
                combined_text(title, body),
            ),
    ensures
        notification_match(app_id, title, body) == Some(
            match_view(
                builtin_registry()[k],
                filter_captures(builtin_registry()[k], combined_text(title, body)).unwrap().0,
                filter_captures(builtin_registry()[k], combined_text(title, body)).unwrap().1,
            ),
        ),
{
    lemma_match_from_first(builtin_registry(), 0, k, app_id, combined_text(title, body));
}

/// A notification is reported only if some registry filter both listens to its
/// application and matches its text; otherwise it is ignored.
pub proof fn law_match_requires_accepting_filter(app_id: Seq<char>, title: Seq<char>, body: Seq<char>)
    ensures
        notification_match(app_id, title, body) is Some <==> exists|k: int|
            0 <= k < builtin_registry().len() && #[trigger] filter_accepts(
                builtin_registry()[k],
                app_id,
                combined_text(title, body),
            ),
{
    let reg = builtin_registry();
    let text = combined_text(title, body);
    if notification_match(app_id, title, body) is Some {
        lemma_match_from_some(reg, 0, app_id, text);
    } else {
        if exists|k: int| 0 <= k < reg.len() && #[trigger] filter_accepts(reg[k], app_id, text) {
            let k = choose|k: int| 0 <= k < reg.len() && #[trigger] filter_accepts(reg[k], app_id, text);
            lemma_match_none_contradiction(reg, 0, k, app_id, text);
        }
    }
}

proof fn lemma_match_none_contradiction(
    filters: Seq<FilterSpec>,
    i: int,
    k: int,
    app_id: Seq<char>,
    text: Seq<char>,
)
    requires
        0 <= i <= k < filters.len(),
        filter_accepts(filters[k], app_id, text),
    ensures
        match_from(filters, i, app_id, text) is Some,
    decreases k - i,
{
    if i < k && !filter_accepts(filters[i], app_id, text) {
        lemma_match_none_contradiction(filters, i + 1, k, app_id, text);
    }
}

/// Notifications from an application that no registry filter listens to are
/// ignored, whatever their text.
pub proof fn law_other_apps_ignored(app_id: Seq<char>, title: Seq<char>, body: Seq<char>)
    requires
        !is_voip_app_id_spec(app_id),
    ensures
        notification_match(app_id, title, body) is None,
{
    let reg = builtin_registry();
    let text = combined_text(title, body);
    assert forall|j: int| 0 <= j < reg.len() implies !filter_accepts(#[trigger] reg[j], app_id, text) by {
        assert(!app_matches(app_id, reg[j]));
    }
    lemma_match_from_none(reg, 0, app_id, text);
}

proof fn lemma_first_listener(filters: Seq<FilterSpec>, i: int, app_id: Seq<char>)
    requires
        0 <= i <= filters.len(),
    ensures
        first_listener_from(filters, i, app_id) is Some <==> exists|k: int|
            i <= k < filters.len() && app_matches(app_id, #[trigger] filters[k]),
    decreases filters.len() - i,
{
    if i < filters.len() {
        lemma_first_listener(filters, i + 1, app_id);
        if app_matches(app_id, filters[i]) {
            assert(app_matches(app_id, filters[i]));
        }
    }
}

/// The process matcher and the application-id test agree: a name is a VoIP
/// application exactly when some softphone is found for it.
pub proof fn law_voip_process_iff_voip_app(name: Seq<char>)
    ensures
        first_listener_from(builtin_registry(), 0, name) is Some <==> is_voip_app_id_spec(name),
{
    lemma_first_listener(builtin_registry(), 0, name);
}

/// A reported notification always comes from a VoIP application.
pub proof fn law_match_implies_voip_app(app_id: Seq<char>, title: Seq<char>, body: Seq<char>)
    ensures
        notification_match(app_id, title, body) is Some ==> is_voip_app_id_spec(app_id),
{
    law_match_requires_accepting_filter(app_id, title, body);
    if notification_match(app_id, title, body) is Some {
        let reg = builtin_registry();
        let text = combined_text(title, body);
        let k = choose|k: int| 0 <= k < reg.len() && #[trigger] filter_accepts(reg[k], app_id, text);
        assert(app_matches(app_id, reg[k]));
    }
}

/// The event types the backend understands.
pub open spec fn is_known_event_type(e: Seq<char>) -> bool {
    e == "ringing"@ || e == "answered"@ || e == "missed"@ || e == "voicemail"@ || e == "ended"@
}

proof fn lemma_match_from_result(filters: Seq<FilterSpec>, i: int, app_id: Seq<char>, text: Seq<char>)
    requires
        0 <= i <= filters.len(),
    ensures
        match_from(filters, i, app_id, text) matches Some(m) ==> exists|k: int|
            i <= k < filters.len() && m.source_app == (#[trigger] filters[k]).display_name
                && m.event_type == filters[k].event_type && m == match_view(
                filters[k],
                filter_captures(filters[k], text).unwrap().0,
                filter_captures(filters[k], text).unwrap().1,
            ),
    decreases filters.len() - i,
{
    if i < filters.len() && !filter_accepts(filters[i], app_id, text) {
        lemma_match_from_result(filters, i + 1, app_id, text);
    }
}

/// Every reported event type is one the backend understands, and the
/// reported softphone is the display name of a registry filter.
pub proof fn law_reported_event_is_known(app_id: Seq<char>, title: Seq<char>, body: Seq<char>)
    ensures
        notification_match(app_id, title, body) matches Some(m) ==> {
            &&& is_known_event_type(m.event_type)
            &&& exists|k: int|
                0 <= k < builtin_registry().len() && m.source_app == (
                #[trigger] builtin_registry()[k]).display_name
        },
{
    let reg = builtin_registry();
    lemma_match_from_result(reg, 0, app_id, combined_text(title, body));
    assert forall|k: int| 0 <= k < reg.len() implies is_known_event_type(#[trigger] reg[k].event_type) by {
    }
}

/// A phone number in normalised form: ASCII digits, with at most a leading `+`.
pub open spec fn is_normalised_phone(p: Seq<char>) -> bool {
    forall|i: int| 0 <= i < p.len() ==> is_ascii_digit_spec(#[trigger] p[i]) || (i == 0 && p[i] == '+')
}

proof fn lemma_digits_only(s: Seq<char>)
    ensures
        forall|i: int| 0 <= i < digits_only(s).len() ==> is_ascii_digit_spec(#[trigger] digits_only(s)[i]),
        (forall|i: int| 0 <= i < s.len() ==> is_ascii_digit_spec(#[trigger] s[i])) ==> digits_only(s) == s,
    decreases s.len(),
{
    if s.len() > 0 {
        lemma_digits_only(s.drop_last());
        let rest = digits_only(s.drop_last());
        let d = digits_only(s);
        assert forall|i: int| 0 <= i < d.len() implies is_ascii_digit_spec(#[trigger] d[i]) by {
            if i < rest.len() {
                assert(d[i] == rest[i]);
            }
        }
        if forall|i: int| 0 <= i < s.len() ==> is_ascii_digit_spec(#[trigger] s[i]) {
            assert forall|i: int| 0 <= i < s.drop_last().len() implies is_ascii_digit_spec(
                #[trigger] s.drop_last()[i],
            ) by {
                assert(s.drop_last()[i] == s[i]);
            }
            assert(s.drop_last().push(s.last()) =~= s);
        }
    }
}

/// A normalised phone number holds only ASCII digits after an optional
/// leading `+`, and normalising it again changes nothing.
pub proof fn law_normalise_phone_shape(raw: Seq<char>)
    ensures
        is_normalised_phone(normalise_phone_spec(raw)),
        normalise_phone_spec(normalise_phone_spec(raw)) == normalise_phone_spec(raw),
{
    let n = normalise_phone_spec(raw);
    if raw.len() > 0 && raw[0] == '+' {
        let d = digits_only(raw.drop_first());
        lemma_digits_only(raw.drop_first());
        lemma_digits_only(d);
        assert forall|i: int| 0 <= i < n.len() implies is_ascii_digit_spec(#[trigger] n[i]) || (i
            == 0 && n[i] == '+') by {
            if i > 0 {
                assert(n[i] == d[i - 1]);
            }
        }
        assert(n.drop_first() =~= d);
    } else {
        lemma_digits_only(raw);
        lemma_digits_only(n);
        if n.len() > 0 {
            assert(is_ascii_digit_spec(n[0]));
            assert(n[0] != '+');
        }
    }
}

proof fn lemma_trim_start_shape(s: Seq<char>)
    ensures
        trim_start_spec(s).len() > 0 ==> !char_is_white_space(trim_start_spec(s)[0]),
    decreases s.len(),
{
    if s.len() > 0 && char_is_white_space(s[0]) {
        lemma_trim_start_shape(s.drop_first());
    }
}

proof fn lemma_trim_end_shape(s: Seq<char>)
    ensures
        trim_end_spec(s).len() <= s.len(),
        trim_end_spec(s) == s.subrange(0, trim_end_spec(s).len() as int),
        trim_end_spec(s).len() > 0 ==> !char_is_white_space(trim_end_spec(s).last()),
    decreases s.len(),
{
    if s.len() > 0 && char_is_white_space(s.last()) {
        lemma_trim_end_shape(s.drop_last());
        let t = trim_end_spec(s.drop_last());
        assert(s.drop_last().subrange(0, t.len() as int) =~= s.subrange(0, t.len() as int));
    } else {
        assert(s.subrange(0, s.len() as int) =~= s);
    }
}

/// Trimming is idempotent: a trimmed string has no surrounding white space.
pub proof fn law_trim_idempotent(s: Seq<char>)
    ensures
        trim_spec(trim_spec(s)) == trim_spec(s),
{
    let u = trim_start_spec(s);
    let t = trim_end_spec(u);
    lemma_trim_start_shape(s);
    lemma_trim_end_shape(u);
    if t.len() > 0 {
        assert(t[0] == u[0]);
        assert(trim_start_spec(t) == t);
        assert(trim_end_spec(t) == t);
    } else {
        assert(trim_start_spec(t) == t);
        assert(trim_end_spec(t) == t);
    }
}

/// The caller details of a match are clean: a phone number is non-empty and
/// normalised, a display name is non-empty and carries no surrounding white
/// space.
pub proof fn law_match_fields_clean(f: FilterSpec, phone: Option<Seq<char>>, name: Option<Seq<char>>)
    ensures
        match_view(f, phone, name).caller_phone_e164 matches Some(p) ==> p.len() > 0
            && is_normalised_phone(p),
        match_view(f, phone, name).caller_display_name matches Some(n) ==> n.len() > 0 && trim_spec(n)
            == n,
{
    if let Some(p) = phone {
        law_normalise_phone_shape(p);
    }
    if let Some(n) = name {
        law_trim_idempotent(n);
    }
}

/// Every reported notification carries clean caller details (see
/// [`law_match_fields_clean`]).
pub proof fn law_reported_fields_clean(app_id: Seq<char>, title: Seq<char>, body: Seq<char>)
    ensures
        notification_match(app_id, title, body) matches Some(m) ==> {
            &&& (m.caller_phone_e164 matches Some(p) ==> p.len() > 0 && is_normalised_phone(p))
            &&& (m.caller_display_name matches Some(n) ==> n.len() > 0 && trim_spec(n) == n)
        },
{
    let reg = builtin_registry();
    let text = combined_text(title, body);
    lemma_match_from_result(reg, 0, app_id, text);
    if notification_match(app_id, title, body) is Some {
        let m = notification_match(app_id, title, body).unwrap();
        let k = choose|k: int|
            0 <= k < reg.len() && m.source_app == (#[trigger] reg[k]).display_name && m.event_type
                == reg[k].event_type && m == match_view(
                reg[k],
                filter_captures(reg[k], text).unwrap().0,
                filter_captures(reg[k], text).unwrap().1,
            );
        law_match_fields_clean(
            reg[k],
            filter_captures(reg[k], text).unwrap().0,
            filter_captures(reg[k], text).unwrap().1,
        );
    }
}

/// `inner` occurs in `mid`, which occurs in `outer`: `inner` occurs in `outer`.
pub proof fn lemma_contains_transitive(outer: Seq<char>, mid: Seq<char>, inner: Seq<char>)
    requires
        seq_contains(outer, mid),
        seq_contains(mid, inner),
    ensures
        seq_contains(outer, inner),
{
    let i = choose|i: int| occurs_at(outer, mid, i);
    let j = choose|j: int| occurs_at(mid, inner, j);
    assert(outer.subrange(i + j, i + j + inner.len()) =~= mid.subrange(j, j + inner.len()));
    assert(occurs_at(outer, inner, i + j));
}

proof fn lemma_trim_start_within(s: Seq<char>)
    ensures
        seq_contains(s, trim_start_spec(s)),
    decreases s.len(),
{
    if s.len() > 0 && char_is_white_space(s[0]) {
        lemma_trim_start_within(s.drop_first());
        assert(occurs_at(s, s.drop_first(), 1)) by {
            assert(s.subrange(1, s.len() as int) =~= s.drop_first());
        }
        lemma_contains_transitive(s, s.drop_first(), trim_start_spec(s.drop_first()));
    } else {
        assert(s.subrange(0, s.len() as int) =~= s);
        assert(occurs_at(s, s, 0));
    }
}

/// The trimmed string is a piece of the untrimmed one.
pub proof fn lemma_trim_within(s: Seq<char>)
    ensures
        seq_contains(s, trim_spec(s)),
{
    lemma_trim_start_within(s);
    let u = trim_start_spec(s);
    lemma_trim_end_shape(u);
    let t = trim_end_spec(u);
    assert(occurs_at(u, t, 0)) by {
        assert(u.subrange(0, t.len() as int) == t);
    }
    lemma_contains_transitive(s, u, t);
}


/// `phrase` (written in lower case) stands at position `i` of `p`, in any
/// letter case.
pub open spec fn phrase_at(p: Seq<char>, i: int, phrase: Seq<char>) -> bool {
    &&& 0 <= i
    &&& i + phrase.len() <= p.len()
    &&& forall|j: int| 0 <= j < phrase.len() ==> ascii_lower(#[trigger] p[i + j]) == phrase[j]
}

/// Where the words of a text pattern begin: after its leading `(?i)` flag
/// and, where one follows, the `(?:` that opens a group of alternatives.
pub open spec fn lead_start(p: Seq<char>) -> int {
    if p.len() >= 7 && p[4] == '(' && p[5] == '?' && p[6] == ':' {
        7
    } else {
        4
    }
}

/// The event a text pattern is written for, read from its first words: a
/// pattern that begins "missed call from" is for missed calls, one that
/// begins "new voicemail" for voicemail, and any other for a ringing call.
pub open spec fn event_type_of_pattern(p: Seq<char>) -> Seq<char> {
    if phrase_at(p, lead_start(p), "missed call from"@) {
        "missed"@
    } else if phrase_at(p, lead_start(p), "new voicemail"@) {
        "voicemail"@
    } else {
        "ringing"@
    }
}

/// Each filter of the registry reports the event its text pattern is
/// written for: "missed" exactly for the patterns that begin "missed call
/// from", "voicemail" for the one that begins "new voicemail", and
/// "ringing" for every other.
pub proof fn law_event_type_follows_pattern()
    ensures
        forall|k: int|
            0 <= k < builtin_registry().len() ==> (#[trigger] builtin_registry()[k]).event_type
                == event_type_of_pattern(builtin_registry()[k].text_pattern),
{
    reveal_strlit("missed call from");
    reveal_strlit("new voicemail");
    reveal_strlit(r"(?i)Missed call from\s+(?:(?P<phone>\+?[\d\s().-]{6,30})|(?P<name>[^\s|—–-][^|—–\n]*?))(?:\s*[—–|\-]|\s*$)");
    reveal_strlit(r"(?i)(?:new voicemail|voicemail received).*?from\s+(?:(?P<phone>\+?[\d\s().-]{6,30})|(?P<name>[^\n]+?))$");
    reveal_strlit(r"(?i)(?:Incoming call from|is calling)\s*(?:[—–-]\s*)?(?:(?P<phone>\+?[\d\s().-]{6,30})|(?P<name>[^\n]+?))$");
    reveal_strlit(r"(?i)incoming call from\s+(?P<name>[^—–\n]+?)(?:\s*[—–-]\s*(?P<phone>\+?[\d\s().-]{6,30}))?$");
    reveal_strlit(r"(?i)missed call from\s+(?:(?P<phone>\+?[\d\s().-]{6,30})|(?P<name>[^\n]+?))$");
    reveal_strlit(r"(?i)incoming call from\s+(?P<name>[^•—–\n]+?)\s*[•—–\-]\s*(?P<phone>\+?[\d\s().-]{6,30})\s*$");
    reveal_strlit(r"(?i)incoming call from\s+(?:(?P<phone>\+?[\d\s().-]{6,30})|(?P<name>[^\n]+?))\s*$");
    reveal_strlit(r"(?i)missed call from\s+(?P<name>[^•—–\n]+?)\s*[•—–\-]\s*(?P<phone>\+?[\d\s().-]{6,30})\s*$");
    reveal_strlit(r"(?i)missed call from\s+(?:(?P<phone>\+?[\d\s().-]{6,30})|(?P<name>[^\n]+?))\s*$");
    reveal_strlit(r"(?i)(?:incoming call from|calling)\s+(?P<name>[^—–\n]+?)(?:\s*[—–-]\s*(?P<phone>\+?[\d\s().-]{6,30}))?$");
    reveal_strlit(r"(?i)incoming call from\s+(?P<name>[^—–\n]+?)(?:\s*[—–-]\s*(?P<phone>\+?[\d\s().-]{6,30}))?$");
    reveal_strlit(r"(?i)(?P<name>.+?)\s+is calling.*?(?P<phone>\+?[\d\s().-]{6,30})?");
    reveal_strlit(r"(?i)incoming call from\s+(?P<name>[^•—–\n]+?)\s*[•—–\-]\s*(?P<phone>\+?[\d\s().-]{6,30})\s*$");
    reveal_strlit(r"(?i)incoming call from\s+(?:(?P<phone>\+?[\d\s().-]{6,30})|(?P<name>[^\n]+?))\s*$");
    reveal_strlit(r"(?i)missed call from\s+(?P<name>[^•—–\n]+?)\s*[•—–\-]\s*(?P<phone>\+?[\d\s().-]{6,30})\s*$");
    reveal_strlit(r"(?i)missed call from\s+(?:(?P<phone>\+?[\d\s().-]{6,30})|(?P<name>[^\n]+?))\s*$");
    reveal_strlit(r"(?i)incoming call from\s+(?P<name>[^—–\n]+?)(?:\s*[—–-]\s*(?P<phone>\+?[\d\s().-]{6,30}))?$");
    let reg = builtin_registry();
    assert forall|k: int| 0 <= k < reg.len() implies (#[trigger] reg[k]).event_type
        == event_type_of_pattern(reg[k].text_pattern) by {
        let p = reg[k].text_pattern;
        let first = ascii_lower(p[lead_start(p)]);
        assert(first == ascii_lower(p[lead_start(p) + 0]));
        if k < 4 {
            assert(k == 0 || k == 1 || k == 2 || k == 3);
        } else if k < 8 {
            assert(k == 4 || k == 5 || k == 6 || k == 7);
        } else if k < 12 {
            assert(k == 8 || k == 9 || k == 10 || k == 11);
        } else {
            assert(k == 12 || k == 13 || k == 14 || k == 15 || k == 16);
        }
    }
}

/// A reported toast carries the event its matching filter's text pattern is
/// written for: a missed-call pattern reports "missed", never "ringing".
pub proof fn law_reported_event_follows_pattern(app_id: Seq<char>, title: Seq<char>, body: Seq<char>)
    ensures
        notification_match(app_id, title, body) matches Some(m) ==> exists|k: int|
            0 <= k < builtin_registry().len() && m.source_app == (
            #[trigger] builtin_registry()[k]).display_name && m.event_type == event_type_of_pattern(
                builtin_registry()[k].text_pattern,
            ),
{
    lemma_match_from_result(builtin_registry(), 0, app_id, combined_text(title, body));
    law_event_type_follows_pattern();
}

/// The text a filter reads is the whole trimmed title, then ` — `, then the
/// whole trimmed body, however long they are: nothing is cut, so a number at
/// the end of a long toast is read whole.
pub proof fn law_combined_text_keeps_both(title: Seq<char>, body: Seq<char>)
    ensures
        combined_text(title, body).len() == trim_spec(title).len() + 3 + trim_spec(body).len(),
        combined_text(title, body).take(trim_spec(title).len() as int) == trim_spec(title),
        combined_text(title, body).subrange(
            trim_spec(title).len() as int,
            trim_spec(title).len() + 3 as int,
        ) == seq![' ', '—', ' '],
        combined_text(title, body).subrange(trim_spec(title).len() + 3 as int, combined_text(title, body).len() as int) == trim_spec(body),
{
    reveal_strlit(" — ");
    let t = trim_spec(title);
    let b = trim_spec(body);
    let c = combined_text(title, body);
    assert(c.take(t.len() as int) =~= t);
    assert(c.subrange(t.len() as int, t.len() + 3 as int) =~= seq![' ', '—', ' ']);
    assert(c.subrange(t.len() + 3 as int, c.len() as int) =~= b);
}

/// Normalising a number keeps every ASCII digit, in order, and nothing
/// else: the digits of two pieces put together are the digits of the first
/// then those of the second, text made only of digits is kept whole, and
/// text without a digit leaves nothing.
pub proof fn law_normalise_keeps_every_digit(a: Seq<char>, b: Seq<char>)
    ensures
        digits_only(a + b) == digits_only(a) + digits_only(b),
        (forall|i: int| 0 <= i < a.len() ==> is_ascii_digit_spec(#[trigger] a[i])) ==> digits_only(a) == a,
        (forall|i: int| 0 <= i < a.len() ==> !is_ascii_digit_spec(#[trigger] a[i])) ==> digits_only(a).len()
            == 0,
        normalise_phone_spec(seq!['+'] + a) == seq!['+'] + digits_only(a),
    decreases a.len() + b.len(),
{
    if b.len() > 0 {
        law_normalise_keeps_every_digit(a, b.drop_last());
        assert((a + b).drop_last() =~= a + b.drop_last());
        assert((a + b).last() == b.last());
    } else {
        assert(a + b =~= a);
        assert(digits_only(a) + digits_only(b) =~= digits_only(a));
    }
    if a.len() > 0 {
        law_normalise_keeps_every_digit(a.drop_last(), Seq::<char>::empty());
        if forall|i: int| 0 <= i < a.len() ==> is_ascii_digit_spec(#[trigger] a[i]) {
            assert forall|i: int| 0 <= i < a.drop_last().len() implies is_ascii_digit_spec(
                #[trigger] a.drop_last()[i],
            ) by {
                assert(a.drop_last()[i] == a[i]);
            }
            assert(is_ascii_digit_spec(a[a.len() - 1]));
            assert(a.drop_last().push(a.last()) =~= a);
        }
        if forall|i: int| 0 <= i < a.len() ==> !is_ascii_digit_spec(#[trigger] a[i]) {
            assert forall|i: int| 0 <= i < a.drop_last().len() implies !is_ascii_digit_spec(
                #[trigger] a.drop_last()[i],
            ) by {
                assert(a.drop_last()[i] == a[i]);
            }
            assert(!is_ascii_digit_spec(a[a.len() - 1]));
        }
    }
    assert((seq!['+'] + a).drop_first() =~= a);
}

proof fn lemma_trim_start_drops_space(s: Seq<char>)
    ensures
        trim_start_spec(s).len() <= s.len(),
        trim_start_spec(s) == s.subrange(s.len() - trim_start_spec(s).len(), s.len() as int),
        forall|k: int| 0 <= k < s.len() - trim_start_spec(s).len() ==> char_is_white_space(#[trigger] s[k]),
    decreases s.len(),
{
    if s.len() > 0 && char_is_white_space(s[0]) {
        let d = s.drop_first();
        lemma_trim_start_drops_space(d);
        let t = trim_start_spec(d);
        assert(d.subrange(d.len() - t.len(), d.len() as int) =~= s.subrange(s.len() - t.len(), s.len() as int));
        assert forall|k: int| 0 <= k < s.len() - t.len() implies char_is_white_space(#[trigger] s[k]) by {
            if k > 0 {
                assert(s[k] == d[k - 1]);
            }
        }
    } else {
        assert(s.subrange(0, s.len() as int) =~= s);
    }
}

proof fn lemma_trim_end_drops_space(s: Seq<char>)
    ensures
        forall|k: int| trim_end_spec(s).len() <= k < s.len() ==> char_is_white_space(#[trigger] s[k]),
    decreases s.len(),
{
    if s.len() > 0 && char_is_white_space(s.last()) {
        lemma_trim_end_drops_space(s.drop_last());
        lemma_trim_end_shape(s.drop_last());
        assert forall|k: int| trim_end_spec(s).len() <= k < s.len() implies char_is_white_space(
            #[trigger] s[k],
        ) by {
            if k < s.len() - 1 {
                assert(s[k] == s.drop_last()[k]);
            }
        }
    }
}

/// Trimming removes exactly the white space at both ends: the result is the
/// piece of the text from position `i` to `j`, every character before `i`
/// and from `j` on is white space, and the result neither starts nor ends
/// with white space.
pub proof fn law_trim_removes_outer_space(s: Seq<char>)
    ensures
        exists|i: int, j: int|
            {
                &&& 0 <= i <= j <= s.len()
                &&& trim_spec(s) == s.subrange(i, j)
                &&& forall|k: int| 0 <= k < i ==> char_is_white_space(#[trigger] s[k])
                &&& forall|k: int| j <= k < s.len() ==> char_is_white_space(#[trigger] s[k])
            },
        trim_spec(s).len() > 0 ==> !char_is_white_space(trim_spec(s)[0]) && !char_is_white_space(
            trim_spec(s).last(),
        ),
{
    let u = trim_start_spec(s);
    let t = trim_end_spec(u);
    lemma_trim_start_drops_space(s);
    lemma_trim_start_shape(s);
    lemma_trim_end_shape(u);
    lemma_trim_end_drops_space(u);
    let i = s.len() - u.len();
    let j = i + t.len();
    assert(t =~= s.subrange(i, j));
    assert forall|k: int| j <= k < s.len() implies char_is_white_space(#[trigger] s[k]) by {
        assert(s[k] == u[k - i]);
    }
    if t.len() > 0 {
        assert(t[0] == u[0]);
    }
}

proof fn lemma_first_listener_same(filters: Seq<FilterSpec>, i: int, a: Seq<char>, b: Seq<char>)
    requires
        lowercase_spec(a) == lowercase_spec(b),
    ensures
        first_listener_from(filters, i, a) == first_listener_from(filters, i, b),
    decreases filters.len() - i,
{
    if 0 <= i < filters.len() {
        lemma_first_listener_same(filters, i + 1, a, b);
    }
}

/// Application ids and process names are compared without regard to letter
/// case: an ASCII name and its lower-case form are listened to by the same
/// filters, and give the same softphone.
pub proof fn law_app_match_ignores_case(name: Seq<char>, f: FilterSpec)
    requires
        all_ascii(name),
    ensures
        app_matches(name, f) == app_matches(name.map_values(|c: char| ascii_lower(c)), f),
        first_listener_from(builtin_registry(), 0, name) == first_listener_from(
            builtin_registry(),
            0,
            name.map_values(|c: char| ascii_lower(c)),
        ),
{
    let l = name.map_values(|c: char| ascii_lower(c));
    assert(all_ascii(l)) by {
        assert forall|i: int| 0 <= i < l.len() implies (#[trigger] l[i] as u32) < 128 by {
            assert((name[i] as u32) < 128);
        }
    }
    assert(l.map_values(|c: char| ascii_lower(c)) =~= l);
    lemma_first_listener_same(builtin_registry(), 0, name, l);
}

} // verus!
