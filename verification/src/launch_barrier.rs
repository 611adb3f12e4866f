//! The launch barrier: two named Windows events through which `Run.exe`
//! reports that the game is created but not yet resumed, and SSMT lets it
//! resume. The events themselves are the caller's; here are their names, the
//! argument that hands the barrier to `Run.exe`, and how a wait is read.
use vstd::prelude::*;
use crate::text::{concat2, concat3, push_char, string_from};

verus! {

#[derive(Debug, Clone, PartialEq, Eq)]
pub enum LaunchBarrierError {
    UnsupportedPlatform,
    CreateFailed(String),
    WaitFailed(String),
    ArrivalTimeout,
    ReleaseFailed(String),
}

impl LaunchBarrierError {
    /// The message shown for this error.
    pub fn message(&self) -> (s: String)
        ensures
            self matches LaunchBarrierError::UnsupportedPlatform ==> s@ == "launch barrier requires Windows"@,
            self matches LaunchBarrierError::CreateFailed(e) ==> s@ == "failed to create launch barrier: "@ + e@,
            self matches LaunchBarrierError::WaitFailed(e) ==> s@ == "failed waiting for launch barrier: "@ + e@,
            self matches LaunchBarrierError::ArrivalTimeout ==> s@ == "Run.exe did not reach before-resume barrier in time"@,
            self matches LaunchBarrierError::ReleaseFailed(e) ==> s@ == "failed to release launch barrier: "@ + e@,
    {
        match self {
            LaunchBarrierError::UnsupportedPlatform => string_from("launch barrier requires Windows"),
            LaunchBarrierError::CreateFailed(e) => concat2("failed to create launch barrier: ", e.as_str()),
            LaunchBarrierError::WaitFailed(e) => concat2("failed waiting for launch barrier: ", e.as_str()),
            LaunchBarrierError::ArrivalTimeout => string_from("Run.exe did not reach before-resume barrier in time"),
            LaunchBarrierError::ReleaseFailed(e) => concat2("failed to release launch barrier: ", e.as_str()),
        }
    }
}

/// The character of a hexadecimal digit (lower case).
pub open spec fn hex_digit_char(d: int) -> char {
    if d < 10 { (('0' as u32) + d) as char } else { (('a' as u32) + d - 10) as char }
}

/// `n` in lower-case hexadecimal, without leading zeros.
pub open spec fn hex(n: nat) -> Seq<char>
    decreases n,
{
    if n < 16 {
        seq![hex_digit_char(n as int)]
    } else {
        hex(n / 16).push(hex_digit_char((n % 16) as int))
    }
}

fn hex_digit(d: u128) -> (c: char)
    requires
        d < 16,
    ensures
        c == hex_digit_char(d as int),
{
    let c: char = match d {
        0 => '0',
        1 => '1',
        2 => '2',
        3 => '3',
        4 => '4',
        5 => '5',
        6 => '6',
        7 => '7',
        8 => '8',
        9 => '9',
        10 => 'a',
        11 => 'b',
        12 => 'c',
        13 => 'd',
        14 => 'e',
        _ => 'f',
    };
    c
}

pub fn hex_text(n: u128) -> (s: String)
    ensures
        s@ == hex(n as nat),
    decreases n,
{
    if n < 16 {
        let mut s = String::new();
        push_char(&mut s, hex_digit(n));
        s
    } else {
        let mut s = hex_text(n / 16);
        push_char(&mut s, hex_digit(n % 16));
        s
    }
}

/// A barrier's id: this process's id, the creation time in nanoseconds and a
/// counter, in hexadecimal, joined by `-`.
pub open spec fn barrier_id_spec(pid: u32, nanos: u128, counter: u64) -> Seq<char> {
    hex(pid as nat) + "-"@ + hex(nanos as nat) + "-"@ + hex(counter as nat)
}

pub fn barrier_id(pid: u32, nanos: u128, counter: u64) -> (id: String)
    ensures
        id@ == barrier_id_spec(pid, nanos, counter),
{
    let a = hex_text(pid as u128);
    let b = hex_text(nanos);
    let c = hex_text(counter as u128);
    let head = concat3(a.as_str(), "-", b.as_str());
    concat3(head.as_str(), "-", c.as_str())
}

/// The name of the event `Run.exe` sets when the game is ready to resume.
pub fn ready_event_name(id: &str) -> (name: String)
    ensures
        name@ == "Local\\SSMT4.Launch."@ + id@ + ".Ready"@,
{
    concat3("Local\\SSMT4.Launch.", id, ".Ready")
}

/// The name of the event SSMT sets to let the game resume.
pub fn release_event_name(id: &str) -> (name: String)
    ensures
        name@ == "Local\\SSMT4.Launch."@ + id@ + ".Release"@,
{
    concat3("Local\\SSMT4.Launch.", id, ".Release")
}

/// The argument that hands the barrier to `Run.exe`.
pub fn run_argument(id: &str) -> (arg: String)
    ensures
        arg@ == "--launch-barrier "@ + id@,
{
    concat2("--launch-barrier ", id)
}

/// A wait's timeout (`millis`, the whole milliseconds of the requested
/// duration), capped at what a Windows wait accepts.
pub fn wait_timeout_ms(millis: u128) -> (ms: u32)
    ensures
        ms as int == if millis > u32::MAX { u32::MAX as int } else { millis as int },
{
    if millis > u32::MAX as u128 { u32::MAX } else { millis as u32 }
}

pub const WAIT_OBJECT_0: u32 = 0;
pub const WAIT_TIMEOUT: u32 = 258;

/// What a wait for the ready event returned: the event was set, the wait timed
/// out, or it failed (with the system's error text).
pub fn wait_outcome(status: u32, last_error: &str) -> (r: Result<(), LaunchBarrierError>)
    ensures
        status == WAIT_OBJECT_0 ==> r is Ok,
        status == WAIT_TIMEOUT ==> r matches Err(LaunchBarrierError::ArrivalTimeout),
        status != WAIT_OBJECT_0 && status != WAIT_TIMEOUT ==> (r matches Err(LaunchBarrierError::WaitFailed(e)) && e@ == last_error@),
{
    if status == WAIT_OBJECT_0 {
        Ok(())
    } else if status == WAIT_TIMEOUT {
        Err(LaunchBarrierError::ArrivalTimeout)
    } else {
        Err(LaunchBarrierError::WaitFailed(string_from(last_error)))
    }
}

/// The text of a Windows error code.
pub fn windows_error_text(code: u32) -> (s: String)
    ensures
        s@ == "Windows error "@ + crate::text::decimal(code as nat),
{
    let digits = crate::text::decimal_text(code as u64);
    concat2("Windows error ", digits.as_str())
}

} // verus!
