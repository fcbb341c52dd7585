//! The supervisor's log: the shape of its lines, the messages of a
//! connection's lifecycle, and when the log file is rotated or an I/O error
//! reported. Clocks and files belong to the program around the library.

use vstd::prelude::*;

use crate::text::{dec, dec_string, owned, push_str};

verus! {

/// How long a failed rotation waits before it is tried again, in
/// milliseconds.
pub const ROTATION_RETRY_MS: u64 = 60000;

/// The severity of a log line.
#[derive(Clone, Copy, Debug, PartialEq, Eq, Structural)]
pub enum Level {
    Info,
    Warn,
    Error,
}

/// The level as written, left-aligned in five columns.
pub open spec fn level_column(level: Level) -> Seq<char> {
    match level {
        Level::Info => "INFO "@,
        Level::Warn => "WARN "@,
        Level::Error => "ERROR"@,
    }
}

/// `[stamp] LEVEL message` and a newline.
pub open spec fn log_line_of(stamp: Seq<char>, level: Level, message: Seq<char>) -> Seq<char> {
    "["@ + stamp + "] "@ + level_column(level) + " "@ + message + "\n"@
}

pub fn log_line(stamp: &str, level: Level, message: &str) -> (r: String)
    ensures
        r@ == log_line_of(stamp@, level, message@),
{
    let mut line = owned("[");
    push_str(&mut line, stamp);
    push_str(&mut line, "] ");
    let column = match level {
        Level::Info => "INFO ",
        Level::Warn => "WARN ",
        Level::Error => "ERROR",
    };
    push_str(&mut line, column);
    push_str(&mut line, " ");
    push_str(&mut line, message);
    push_str(&mut line, "\n");
    line
}

// ───────────────────────── lifecycle messages ─────────────────────────

pub open spec fn started_message_of(
    name: Seq<char>,
    pid: u32,
    destination: Seq<char>,
    forwards: Seq<char>,
) -> Seq<char> {
    name + ": ssh process started (pid "@ + dec(pid as nat) + "); destination="@ + destination
        + "; forwards=["@ + forwards + "]"@
}

/// `name: ssh process started (pid N); destination=D; forwards=[F]`.
pub fn started_message(name: &str, pid: u32, destination: &str, forwards: &str) -> (r: String)
    ensures
        r@ == started_message_of(name@, pid, destination@, forwards@),
{
    let mut m = owned(name);
    push_str(&mut m, ": ssh process started (pid ");
    let digits = dec_string(pid as u64);
    push_str(&mut m, digits.as_str());
    push_str(&mut m, "); destination=");
    push_str(&mut m, destination);
    push_str(&mut m, "; forwards=[");
    push_str(&mut m, forwards);
    push_str(&mut m, "]");
    m
}

/// `name: ssh exited with STATUS`.
pub fn exited_message(name: &str, status: &str) -> (r: String)
    ensures
        r@ == name@ + ": ssh exited with "@ + status@,
{
    let mut m = owned(name);
    push_str(&mut m, ": ssh exited with ");
    push_str(&mut m, status);
    m
}

/// `name: reconnecting in Ns`.
pub fn reconnect_message(name: &str, delay: u64) -> (r: String)
    ensures
        r@ == name@ + ": reconnecting in "@ + dec(delay as nat) + "s"@,
{
    let mut m = owned(name);
    push_str(&mut m, ": reconnecting in ");
    let digits = dec_string(delay);
    push_str(&mut m, digits.as_str());
    push_str(&mut m, "s");
    m
}

/// `name: TEXT`, for the fixed lifecycle notes.
pub fn connection_note(name: &str, text: &str) -> (r: String)
    ensures
        r@ == name@ + ": "@ + text@,
{
    let mut m = owned(name);
    push_str(&mut m, ": ");
    push_str(&mut m, text);
    m
}

// ───────────────────────── the log file ─────────────────────────

/// The rotation threshold in bytes for a size in MiB (saturating).
pub open spec fn rotation_bytes_of(mib: u64) -> u64 {
    if mib * 1048576 > u64::MAX {
        u64::MAX
    } else {
        (mib * 1048576) as u64
    }
}

pub fn rotation_bytes(mib: u64) -> (r: u64)
    ensures
        r == rotation_bytes_of(mib),
{
    if mib > u64::MAX / 1048576 {
        u64::MAX
    } else {
        mib * 1048576
    }
}

/// The file is rotated when there is a file, rotation is on, no earlier
/// failure asks to wait, and the file has reached the threshold.
pub open spec fn rotation_due_of(
    has_file: bool,
    max_bytes: u64,
    retry_at: Option<u64>,
    now: u64,
    size: u64,
) -> bool {
    &&& has_file
    &&& max_bytes > 0
    &&& match retry_at {
        Some(t) => now >= t,
        None => true,
    }
    &&& size >= max_bytes
}

pub fn rotation_due(has_file: bool, max_bytes: u64, retry_at: Option<u64>, now: u64, size: u64) -> (r:
    bool)
    ensures
        r == rotation_due_of(has_file, max_bytes, retry_at, now, size),
{
    let waited = match retry_at {
        Some(t) => now >= t,
        None => true,
    };
    has_file && max_bytes > 0 && waited && size >= max_bytes
}

/// After a rotation attempt: success clears the wait; a failure waits a
/// minute before the next attempt.
pub fn retry_after_rotation(renamed: bool, now: u64) -> (r: Option<u64>)
    ensures
        renamed ==> r is None,
        !renamed ==> r == Some(if now + ROTATION_RETRY_MS > u64::MAX {
            u64::MAX
        } else {
            (now + ROTATION_RETRY_MS) as u64
        }),
{
    if renamed {
        None
    } else if now > u64::MAX - ROTATION_RETRY_MS {
        Some(u64::MAX)
    } else {
        Some(now + ROTATION_RETRY_MS)
    }
}

/// Whether an I/O failure of the log file has been reported since the last
/// write that worked; it is reported only once.
#[derive(Debug)]
pub struct IoErrorLatch {
    pub reported: bool,
}

impl IoErrorLatch {
    /// A failure: returns whether to report it now.
    pub fn failed(&mut self) -> (report: bool)
        ensures
            report == !old(self).reported,
            final(self).reported,
    {
        let report = !self.reported;
        self.reported = true;
        report
    }

    /// A write that worked: the next failure is reported again.
    pub fn succeeded(&mut self)
        ensures
            !final(self).reported,
    {
        self.reported = false;
    }
}

} // verus!
