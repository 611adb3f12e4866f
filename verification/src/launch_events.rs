//! Launch events: JSON lines that a launcher writes while a game starts
//! (`{"event":"target_created","pid":42,...}`), checked before they are
//! passed to the interface.
use vstd::prelude::*;
use crate::external_manager::{json_error_message, json_parses, json_string_member, parse_json_with_member};
use crate::text::{chars_of, concat2, is_blank, is_blank_seq, is_white_space, string_of};

verus! {

pub const LAUNCH_EVENT_NAME: &'static str = "launch-event";

/// The members of a JSON object (carried as they are).
#[verifier::external_type_specification]
#[verifier::external_body]
#[verifier::reject_recursive_types(K)]
#[verifier::reject_recursive_types(V)]
pub struct ExJsonMap<K, V>(serde_json::Map<K, V>);

#[derive(Debug, PartialEq, Eq)]
pub struct LaunchEvent {
    pub event: String,
    pub pid: Option<u32>,
    pub module: Option<String>,
    pub stage: Option<String>,
    pub code: Option<String>,
    pub message: Option<String>,
    /// Every other member of the line, kept as it came.
    pub details: serde_json::Map<String, serde_json::Value>,
}

/// Where launch events go: the interface's `launch-event` channel.
pub struct LaunchEventBus;

#[derive(Debug, Clone, PartialEq, Eq)]
pub enum LaunchEventParseError {
    InvalidJson(String),
    MissingEvent,
}

impl LaunchEventParseError {
    /// The message shown for this error.
    pub fn message(&self) -> (s: String)
        ensures
            self matches LaunchEventParseError::InvalidJson(m) ==> s@ == "invalid launch event JSON: "@ + m@,
            self matches LaunchEventParseError::MissingEvent ==> s@ == "launch event is missing event"@,
    {
        match self {
            LaunchEventParseError::InvalidJson(m) => concat2("invalid launch event JSON: ", m.as_str()),
            LaunchEventParseError::MissingEvent => crate::text::string_from("launch event is missing event"),
        }
    }
}

// ---------------------------------------------------------------------------
// Trimming

/// The first position at or after `i` that is not white space (or the end).
pub open spec fn first_non_space_from(s: Seq<char>, i: int) -> int
    decreases s.len() - i,
{
    if i < 0 || i >= s.len() {
        s.len() as int
    } else if !is_white_space(s[i]) {
        i
    } else {
        first_non_space_from(s, i + 1)
    }
}

/// The end of the text before position `j` once trailing white space is dropped.
pub open spec fn end_without_space(s: Seq<char>, j: int) -> int
    decreases j,
{
    if j <= 0 || j > s.len() {
        0
    } else if !is_white_space(s[j - 1]) {
        j
    } else {
        end_without_space(s, j - 1)
    }
}

/// `str::trim`: the text without leading and trailing white space.
pub open spec fn trim_seq(s: Seq<char>) -> Seq<char> {
    let a = first_non_space_from(s, 0);
    let b = end_without_space(s, s.len() as int);
    if a < b { s.subrange(a, b) } else { Seq::empty() }
}

pub fn trim_text(s: &str) -> (t: String)
    ensures
        t@ == trim_seq(s@),
{
    let chars = chars_of(s);
    let n = chars.len();
    let mut a: usize = 0;
    while a < n && crate::text::is_white_space_char(chars[a])
        invariant
            chars@ == s@,
            n == chars@.len(),
            a <= n,
            first_non_space_from(s@, 0) == first_non_space_from(s@, a as int),
        decreases n - a,
    {
        a += 1;
    }
    assert(first_non_space_from(s@, a as int) == a);
    let mut b: usize = n;
    while b > 0 && crate::text::is_white_space_char(chars[b - 1])
        invariant
            chars@ == s@,
            n == chars@.len(),
            b <= n,
            a <= n,
            first_non_space_from(s@, 0) == a,
            end_without_space(s@, n as int) == end_without_space(s@, b as int),
        decreases b,
    {
        b -= 1;
    }
    assert(end_without_space(s@, b as int) == b);
    if a < b {
        string_of(chars.as_slice(), a, b)
    } else {
        proof { reveal_strlit(""); }
        crate::text::string_from("")
    }
}

// ---------------------------------------------------------------------------
// Checking a line

/// Whether the text's top-level `event` member is a string.
pub open spec fn json_event_is_string(raw: Seq<char>) -> bool {
    json_string_member(raw, "event"@) is Some
}

/// What a line is, before its members are read.
pub enum LineOutcome {
    /// A blank line: nothing to report.
    Blank,
    /// Not JSON; the parser's message.
    InvalidJson(Seq<char>),
    /// JSON without a string `event` member.
    MissingEvent,
    /// The trimmed text of an event.
    Event(Seq<char>),
}

pub open spec fn launch_line_outcome(line: Seq<char>) -> LineOutcome {
    let t = trim_seq(line);
    if t.len() == 0 {
        LineOutcome::Blank
    } else if !json_parses(t) {
        LineOutcome::InvalidJson(json_error_message(t))
    } else if !json_event_is_string(t) {
        LineOutcome::MissingEvent
    } else {
        LineOutcome::Event(t)
    }
}

/// Checks a line of launcher output: blank lines are skipped, and a line must
/// be JSON with a string `event` member; its trimmed text is then read into a
/// `LaunchEvent` and passed to `accept_launch_event`.
pub fn check_launch_line(line: &str) -> (r: Result<Option<String>, LaunchEventParseError>)
    ensures
        match launch_line_outcome(line@) {
            LineOutcome::Blank => r matches Ok(None),
            LineOutcome::InvalidJson(m) => r matches Err(LaunchEventParseError::InvalidJson(x)) && x@ == m,
            LineOutcome::MissingEvent => r matches Err(LaunchEventParseError::MissingEvent),
            LineOutcome::Event(t) => r matches Ok(Some(x)) && x@ == t,
        },
{
    let trimmed = trim_text(line);
    if trimmed.as_str().is_empty() {
        return Ok(None);
    }
    proof { reveal_strlit("event"); }
    match parse_json_with_member(trimmed.as_str(), "event") {
        Err(m) => Err(LaunchEventParseError::InvalidJson(m)),
        Ok((_, None)) => Err(LaunchEventParseError::MissingEvent),
        Ok((_, Some(_))) => Ok(Some(trimmed)),
    }
}

/// The last check on a read event: its `event` must not be blank.
pub fn accept_launch_event(event: LaunchEvent) -> (r: Result<Option<LaunchEvent>, LaunchEventParseError>)
    ensures
        is_blank_seq(event.event@) ==> r matches Err(LaunchEventParseError::MissingEvent),
        !is_blank_seq(event.event@) ==> r == Ok::<Option<LaunchEvent>, LaunchEventParseError>(Some(event)),
{
    if is_blank(event.event.as_str()) {
        return Err(LaunchEventParseError::MissingEvent);
    }
    Ok(Some(event))
}

} // verus!
