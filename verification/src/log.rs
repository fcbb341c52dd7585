//! Structured supervisor log lines: severity, connection, timestamp, and the
//! short message the GUI shows.

use vstd::prelude::*;

use chrono::{Datelike, Local, LocalResult, NaiveDateTime, TimeZone, Timelike};

use crate::logger::{level_column, log_line_of, Level};
use crate::supervisor::{utf8_string, utf8_text};
use crate::text::{
    is_ws, lemma_find_char_at, lemma_find_char_not_before, lemma_word_end_at, skip_ws_fwd,
    strip_back_char, strip_fwd_char,
};
use crate::text::{
    contains, contains_in, dec, dec_string, ends_with, ends_with_in, find, find_in, first_word,
    first_word_in, has_char, has_char_in, opt_view, owned, parse_unsigned, parse_unsigned_in,
    push_chars, push_one, push_str, split_once, split_once_in, starts_with, starts_with_in,
    str_chars, string_from, strip_prefix, strip_prefix_in, trim_end_char, trim_end_char_in,
    trim_start, trim_start_char, trim_start_char_in, trim_start_slice,
};

verus! {

/// How many log lines the GUI keeps before dropping the oldest.
pub const LOG_BUFFER_LIMIT: usize = 2000;

/// An opaque RGB colour.
#[derive(Clone, Copy, Debug, PartialEq, Eq, Structural)]
pub struct Rgb {
    pub r: u8,
    pub g: u8,
    pub b: u8,
}

pub open spec fn rgb(r: u8, g: u8, b: u8) -> Rgb {
    Rgb { r, g, b }
}

#[derive(Clone, Copy, Debug, PartialEq, Eq, Structural)]
pub enum Severity {
    Info,
    Warn,
    Error,
}

pub open spec fn severity_label(s: Severity) -> Seq<char> {
    match s {
        Severity::Info => "INFO"@,
        Severity::Warn => "WARN"@,
        Severity::Error => "ERROR"@,
    }
}

impl Severity {
    pub fn label(self) -> (r: &'static str)
        ensures
            r@ == severity_label(self),
    {
        match self {
            Severity::Info => "INFO",
            Severity::Warn => "WARN",
            Severity::Error => "ERROR",
        }
    }

    /// Text colour on the severity badge.
    pub fn foreground(self) -> (r: Rgb)
        ensures
            r == (match self {
                Severity::Error => rgb(255, 255, 255),
                _ => rgb(0, 0, 0),
            }),
    {
        match self {
            Severity::Info => Rgb { r: 0, g: 0, b: 0 },
            Severity::Warn => Rgb { r: 0, g: 0, b: 0 },
            Severity::Error => Rgb { r: 255, g: 255, b: 255 },
        }
    }

    /// Fill colour of the severity badge.
    pub fn badge(self) -> (r: Rgb)
        ensures
            r == (match self {
                Severity::Info => rgb(0, 200, 120),
                Severity::Warn => rgb(245, 200, 70),
                Severity::Error => rgb(245, 90, 90),
            }),
    {
        match self {
            Severity::Info => Rgb { r: 0, g: 200, b: 120 },
            Severity::Warn => Rgb { r: 245, g: 200, b: 70 },
            Severity::Error => Rgb { r: 245, g: 90, b: 90 },
        }
    }
}

/// One parsed line of supervisor output.
#[derive(Debug)]
pub struct LogEntry {
    pub ts_secs: Option<u64>,
    pub severity: Severity,
    pub connection: Option<String>,
    /// Short, human-readable event shown in the log panel.
    pub message: String,
}

/// The colour of an event: lifecycle messages by what happened, the rest by
/// severity.
pub open spec fn event_color_of(message: Seq<char>, severity: Severity) -> Rgb {
    if starts_with(message, "connected \u{b7}"@) {
        rgb(0, 200, 120)
    } else if starts_with(message, "ssh exited \u{b7}"@) || starts_with(
        message,
        "supervisor stopped"@,
    ) {
        rgb(245, 90, 90)
    } else {
        match severity {
            Severity::Info => rgb(0, 220, 220),
            Severity::Warn => rgb(245, 200, 70),
            Severity::Error => rgb(245, 90, 90),
        }
    }
}

impl LogEntry {
    /// Colour for the entry's text.
    pub fn event_color(&self) -> (r: Rgb)
        ensures
            r == event_color_of(self.message@, self.severity),
    {
        let m = str_chars(self.message.as_str());
        let c1 = str_chars("connected \u{b7}");
        let c2 = str_chars("ssh exited \u{b7}");
        let c3 = str_chars("supervisor stopped");
        if starts_with_in(m.as_slice(), c1.as_slice()) {
            Rgb { r: 0, g: 200, b: 120 }
        } else if starts_with_in(m.as_slice(), c2.as_slice()) || starts_with_in(
            m.as_slice(),
            c3.as_slice(),
        ) {
            Rgb { r: 245, g: 90, b: 90 }
        } else {
            match self.severity {
                Severity::Info => Rgb { r: 0, g: 220, b: 220 },
                Severity::Warn => Rgb { r: 245, g: 200, b: 70 },
                Severity::Error => Rgb { r: 245, g: 90, b: 90 },
            }
        }
    }
}

/// Whether the log view follows the newest line or stays at an offset.
#[derive(Clone, Copy, Debug, PartialEq, Eq, Structural)]
pub struct LogScroll {
    pub follow: bool,
    pub offset_from_bottom: usize,
}

impl Default for LogScroll {
    fn default() -> (r: Self)
        ensures
            r.follow,
            r.offset_from_bottom == 0,
    {
        LogScroll { follow: true, offset_from_bottom: 0 }
    }
}

// ───────────────────────── parsing ─────────────────────────

/// Severity from the level token anywhere in the line.
pub open spec fn severity_of(raw: Seq<char>) -> Severity {
    if contains(raw, " ERROR "@) {
        Severity::Error
    } else if contains(raw, " WARN "@) {
        Severity::Warn
    } else {
        Severity::Info
    }
}

/// The text after the level token, if the level token follows the timestamp.
pub open spec fn after_level(p: Seq<char>) -> Option<Seq<char>> {
    match strip_prefix(p, "INFO "@) {
        Some(r) => Some(r),
        None => match strip_prefix(p, "WARN "@) {
            Some(r) => Some(r),
            None => strip_prefix(p, "ERROR "@),
        },
    }
}

/// `line.trim_start_matches('[').split(']').nth(1)`.
pub open spec fn second_bracket_piece(line: Seq<char>) -> Option<Seq<char>> {
    match split_once(trim_start_char(line, '['), "]"@) {
        None => None,
        Some((_, rest)) => Some(
            match find(rest, "]"@) {
                Some(j) => rest.subrange(0, j),
                None => rest,
            },
        ),
    }
}

/// `name` in `[ts] LEVEL name: ...`.
pub open spec fn connection_of(line: Seq<char>) -> Option<Seq<char>> {
    match second_bracket_piece(line) {
        None => None,
        Some(piece) => match after_level(trim_start(piece)) {
            None => None,
            Some(rest) => match first_word(rest) {
                None => None,
                Some(tok) => if !ends_with(tok, ":"@) {
                    None
                } else {
                    let name = trim_end_char(tok, ':');
                    if name.len() == 0 || has_char(name, '[') {
                        None
                    } else {
                        Some(name)
                    }
                },
            },
        },
    }
}

/// The payload after the timestamp.
pub open spec fn after_stamp(raw: Seq<char>) -> Seq<char> {
    match split_once(raw, "]"@) {
        Some((_, rest)) => trim_start(rest),
        None => raw,
    }
}

/// The payload without its level token.
pub open spec fn without_level(p: Seq<char>) -> Seq<char> {
    match after_level(p) {
        Some(r) => r,
        None => p,
    }
}

/// The payload without the `name:` prefix.
pub open spec fn without_connection(p: Seq<char>, connection: Option<Seq<char>>) -> Seq<char> {
    match connection {
        Some(name) => match strip_prefix(p, name) {
            Some(rest) => match strip_prefix(rest, ":"@) {
                Some(r2) => trim_start(r2),
                None => p,
            },
            None => p,
        },
        None => p,
    }
}

/// The short message: only the known log prefix is removed, so ports and exit
/// statuses survive; start and exit lines are rephrased.
pub open spec fn concise_of(raw: Seq<char>, connection: Option<Seq<char>>) -> Seq<char> {
    let p = without_connection(without_level(after_stamp(raw)), connection);
    let p = match strip_prefix(p, "ssh: "@) {
        Some(r) => r,
        None => p,
    };
    match strip_prefix(p, "ssh process started "@) {
        Some(rest) => "connected \u{b7} "@ + rest,
        None => match strip_prefix(p, "ssh exited with "@) {
            Some(status) => "ssh exited \u{b7} "@ + status,
            None => p,
        },
    }
}

/// The text inside a leading `[...]`.
pub open spec fn stamp_token(line: Seq<char>) -> Option<Seq<char>> {
    match strip_prefix(line, "["@) {
        None => None,
        Some(after) => match find(after, "]"@) {
            None => None,
            Some(end) => Some(after.subrange(0, end)),
        },
    }
}

fn after_level_in(p: &[char]) -> (r: Option<&[char]>)
    ensures
        match r {
            Some(t) => after_level(p@) == Some(t@),
            None => after_level(p@) is None,
        },
{
    let i = str_chars("INFO ");
    let w = str_chars("WARN ");
    let e = str_chars("ERROR ");
    match strip_prefix_in(p, i.as_slice()) {
        Some(r) => Some(r),
        None => match strip_prefix_in(p, w.as_slice()) {
            Some(r) => Some(r),
            None => strip_prefix_in(p, e.as_slice()),
        },
    }
}

fn parse_connection(line: &[char]) -> (r: Option<Vec<char>>)
    ensures
        match r {
            Some(v) => connection_of(line@) == Some(v@),
            None => connection_of(line@) is None,
        },
{
    let close = str_chars("]");
    let t = trim_start_char_in(line, '[');
    let rest = match split_once_in(t, close.as_slice()) {
        None => return None,
        Some((_, rest)) => rest,
    };
    let piece = match find_in(rest, close.as_slice()) {
        Some(j) => &rest[0..j],
        None => rest,
    };
    let after = match after_level_in(trim_start_slice(piece)) {
        None => return None,
        Some(a) => a,
    };
    let tok = match first_word_in(after) {
        None => return None,
        Some(t) => t,
    };
    let colon = str_chars(":");
    if !ends_with_in(tok, colon.as_slice()) {
        return None;
    }
    let name = trim_end_char_in(tok, ':');
    if name.len() == 0 || has_char_in(name, '[') {
        return None;
    }
    let mut v: Vec<char> = Vec::new();
    crate::text::extend_chars(&mut v, name);
    assert(v@ =~= name@);
    Some(v)
}

fn concise_message(raw: &[char], connection: &Option<Vec<char>>) -> (r: String)
    ensures
        r@ == concise_of(
            raw@,
            match connection {
                Some(v) => Some(v@),
                None => None,
            },
        ),
{
    let close = str_chars("]");
    let p: &[char] = match split_once_in(raw, close.as_slice()) {
        Some((_, rest)) => trim_start_slice(rest),
        None => raw,
    };
    let p: &[char] = match after_level_in(p) {
        Some(r) => r,
        None => p,
    };
    let colon = str_chars(":");
    let p: &[char] = match connection {
        Some(name) => match strip_prefix_in(p, name.as_slice()) {
            Some(rest) => match strip_prefix_in(rest, colon.as_slice()) {
                Some(r2) => trim_start_slice(r2),
                None => p,
            },
            None => p,
        },
        None => p,
    };
    let ssh = str_chars("ssh: ");
    let p: &[char] = match strip_prefix_in(p, ssh.as_slice()) {
        Some(r) => r,
        None => p,
    };
    let started = str_chars("ssh process started ");
    let exited = str_chars("ssh exited with ");
    match strip_prefix_in(p, started.as_slice()) {
        Some(rest) => {
            let mut m = owned("connected \u{b7} ");
            push_chars(&mut m, rest);
            m
        },
        None => match strip_prefix_in(p, exited.as_slice()) {
            Some(status) => {
                let mut m = owned("ssh exited \u{b7} ");
                push_chars(&mut m, status);
                m
            },
            None => string_from(p),
        },
    }
}

/// The calendar fields (year, month, day, hour, minute, second) that
/// `chrono::NaiveDateTime::parse_from_str(token, "%Y-%m-%d %H:%M:%S")` reads
/// from `token`, or `None` where it fails. It depends on the token alone.
pub uninterp spec fn wall_clock_fields(token: Seq<char>) -> Option<(i32, u32, u32, u32, u32, u32)>;

/// `chrono::NaiveDateTime::parse_from_str(token, "%Y-%m-%d %H:%M:%S")`, a
/// wall-clock time written as `2024-01-15 13:20:59`, handed back as its
/// fields through chrono's `Datelike` and `Timelike` accessors (a leap second
/// `:60` reads as `:59`, which has the same Unix time). The result is the
/// named `wall_clock_fields` of the token; chrono's format parser is not
/// restated.
#[verifier::external_body]
fn parse_wall_clock(token: &str) -> (r: Option<(i32, u32, u32, u32, u32, u32)>)
    ensures
        r == wall_clock_fields(token@),
{
    match NaiveDateTime::parse_from_str(token, "%Y-%m-%d %H:%M:%S") {
        Ok(t) => Some((t.year(), t.month(), t.day(), t.hour(), t.minute(), t.second())),
        Err(_) => None,
    }
}

/// `chrono::Local.with_ymd_and_hms`, then `DateTime::timestamp`: the Unix
/// time of a wall-clock time in the machine's time zone, when that time
/// exists exactly once. It depends on the machine's time zone, so nothing is
/// stated of it.
#[verifier::external_body]
fn local_unix_time(fields: (i32, u32, u32, u32, u32, u32)) -> Option<i64> {
    let (year, month, day, hour, minute, second) = fields;
    match Local.with_ymd_and_hms(year, month, day, hour, minute, second) {
        LocalResult::Single(moment) => Some(moment.timestamp()),
        _ => None,
    }
}

/// Timestamp of a log line: a leading `[secs]`, or a leading local
/// `[YYYY-MM-DD HH:MM:SS]` read in the machine's time zone (negative times
/// count as zero).
pub fn parse_ts(line: &str) -> (r: Option<u64>)
    ensures
        match stamp_token(line@) {
            None => r is None,
            Some(t) => match parse_unsigned(t, u64::MAX as nat) {
                Some(n) => r == Some(n as u64),
                None => wall_clock_fields(t) is None ==> r is None,
            },
        },
{
    let cs = str_chars(line);
    let open = str_chars("[");
    let close = str_chars("]");
    let after = match strip_prefix_in(cs.as_slice(), open.as_slice()) {
        None => return None,
        Some(a) => a,
    };
    let end = match find_in(after, close.as_slice()) {
        None => return None,
        Some(e) => e,
    };
    let token = &after[0..end];
    if let Some(secs) = parse_unsigned_in(token, u64::MAX) {
        return Some(secs);
    }
    let text = string_from(token);
    match parse_wall_clock(text.as_str()) {
        None => None,
        Some(fields) => epoch_seconds(local_unix_time(fields)),
    }
}

/// A Unix time as an unsigned count of seconds: times before 1970 count as
/// zero.
pub fn epoch_seconds(local: Option<i64>) -> (r: Option<u64>)
    ensures
        r == (match local {
            None => None,
            Some(t) => Some(
                if t < 0 {
                    0u64
                } else {
                    t as u64
                },
            ),
        }),
{
    match local {
        None => None,
        Some(t) => if t < 0 {
            Some(0)
        } else {
            Some(t as u64)
        },
    }
}

/// The entry for one supervisor stderr line.
pub fn parse_log_line(raw: &str) -> (r: LogEntry)
    ensures
        r.severity == severity_of(raw@),
        opt_view(r.connection) == connection_of(raw@),
        r.message@ == concise_of(raw@, connection_of(raw@)),
        match stamp_token(raw@) {
            None => r.ts_secs is None,
            Some(t) => match parse_unsigned(t, u64::MAX as nat) {
                Some(n) => r.ts_secs == Some(n as u64),
                None => wall_clock_fields(t) is None ==> r.ts_secs is None,
            },
        },
{
    let cs = str_chars(raw);
    let ts_secs = parse_ts(raw);
    let e = str_chars(" ERROR ");
    let w = str_chars(" WARN ");
    let severity = if contains_in(cs.as_slice(), e.as_slice()) {
        Severity::Error
    } else if contains_in(cs.as_slice(), w.as_slice()) {
        Severity::Warn
    } else {
        Severity::Info
    };
    let connection = parse_connection(cs.as_slice());
    let message = concise_message(cs.as_slice(), &connection);
    let connection = match connection {
        Some(v) => Some(string_from(v.as_slice())),
        None => None,
    };
    LogEntry { ts_secs, severity, connection, message }
}

/// Authentication-method chatter is hidden; everything else is shown.
pub open spec fn displayable(message: Seq<char>) -> bool {
    !contains(message, "using \"publickey\""@)
}

pub fn is_displayable(entry: &LogEntry) -> (r: bool)
    ensures
        r == displayable(entry.message@),
{
    let m = str_chars(entry.message.as_str());
    let p = str_chars("using \"publickey\"");
    !contains_in(m.as_slice(), p.as_slice())
}

/// Two decimal digits, zero-padded.
pub open spec fn two_digits(n: nat) -> Seq<char> {
    if n < 10 {
        seq!['0'] + dec(n)
    } else {
        dec(n)
    }
}

/// `HH:MM:SS` of a Unix time, counted in UTC and wrapping every day.
pub open spec fn hms(secs: nat) -> Seq<char> {
    two_digits((secs / 3600) % 24) + ":"@ + two_digits((secs / 60) % 60) + ":"@ + two_digits(
        secs % 60,
    )
}

pub(crate) fn push_two_digits(out: &mut String, n: u64)
    ensures
        final(out)@ == old(out)@ + two_digits(n as nat),
{
    if n < 10 {
        push_one(out, '0');
    }
    let d = dec_string(n);
    push_str(out, d.as_str());
    assert(out@ =~= old(out)@ + two_digits(n as nat));
}

/// Renders a Unix epoch timestamp as `HH:MM:SS` (24-hour, wraps at 86400 s).
pub fn format_unix_ts(secs: u64) -> (r: String)
    ensures
        r@ == hms(secs as nat),
{
    let mut s = String::new();
    push_two_digits(&mut s, (secs / 3600) % 24);
    push_str(&mut s, ":");
    push_two_digits(&mut s, (secs / 60) % 60);
    push_str(&mut s, ":");
    push_two_digits(&mut s, secs % 60);
    assert(s@ =~= hms(secs as nat));
    s
}

/// The clock face repeats every day: a time and the same time a day later
/// read the same.
pub proof fn lemma_hms_wraps_daily(secs: nat)
    ensures
        hms(secs + 86400) == hms(secs),
{
    assert((secs + 86400) / 3600 == secs / 3600 + 24) by (nonlinear_arith);
    assert((secs + 86400) / 60 == secs / 60 + 1440) by (nonlinear_arith);
    assert((secs / 3600 + 24) % 24 == (secs / 3600) % 24) by (nonlinear_arith);
    assert((secs / 60 + 1440) % 60 == (secs / 60) % 60) by (nonlinear_arith);
    assert((secs + 86400) % 60 == secs % 60) by (nonlinear_arith);
}

/// The hour, minute and second that `hms` shows.
pub open spec fn hms_fields(secs: nat) -> (nat, nat, nat) {
    ((secs / 3600) % 24, (secs / 60) % 60, secs % 60)
}

/// The clock face shows the second of the day: its hour, minute and second
/// are in range and rebuild `secs % 86400`.
pub proof fn lemma_hms_is_second_of_day(secs: nat)
    ensures
        ({
            let (h, m, x) = hms_fields(secs);
            &&& h < 24 && m < 60 && x < 60
            &&& h * 3600 + m * 60 + x == secs % 86400
            &&& hms(secs) == two_digits(h) + ":"@ + two_digits(m) + ":"@ + two_digits(x)
        }),
{
    let q = secs / 60;
    let x = secs % 60;
    let k = q / 60;
    let m = q % 60;
    let h = k % 24;
    let d = k / 24;
    vstd::arithmetic::div_mod::lemma_fundamental_div_mod(secs as int, 60);
    vstd::arithmetic::div_mod::lemma_fundamental_div_mod(q as int, 60);
    vstd::arithmetic::div_mod::lemma_fundamental_div_mod(k as int, 24);
    assert(secs == 60 * q + x && x < 60);
    assert(q == 60 * k + m && m < 60);
    assert(k == 24 * d + h && h < 24);
    assert(k == secs / 3600) by {
        vstd::arithmetic::div_mod::lemma_div_denominator(secs as int, 60, 60);
    }
    assert(secs == d * 86400 + (h * 3600 + m * 60 + x)) by (nonlinear_arith)
        requires
            secs == 60 * q + x,
            q == 60 * k + m,
            k == 24 * d + h,
    ;
    assert(h * 3600 + m * 60 + x < 86400) by (nonlinear_arith)
        requires
            h < 24,
            m < 60,
            x < 60,
    ;
    vstd::arithmetic::div_mod::lemma_fundamental_div_mod_converse_mod(
        secs as int,
        86400,
        d as int,
        (h * 3600 + m * 60 + x) as int,
    );
}

/// First line shown in the log pane: the last `viewport` lines when
/// following (or when everything fits), otherwise the window that ends
/// `offset_from_bottom` lines above the newest.
pub open spec fn window_start(total: nat, viewport: nat, scroll: LogScroll) -> nat {
    if scroll.follow || total <= viewport {
        if total >= viewport {
            (total - viewport) as nat
        } else {
            0
        }
    } else {
        let bottom: nat = if total >= scroll.offset_from_bottom {
            (total - scroll.offset_from_bottom) as nat
        } else {
            0
        };
        if bottom >= viewport {
            (bottom - viewport) as nat
        } else {
            0
        }
    }
}

pub fn log_window_start(total: usize, viewport: usize, scroll: LogScroll) -> (r: usize)
    ensures
        r == window_start(total as nat, viewport as nat, scroll),
        r <= total,
{
    if scroll.follow || total <= viewport {
        total.saturating_sub(viewport)
    } else {
        let bottom = total.saturating_sub(scroll.offset_from_bottom);
        bottom.saturating_sub(viewport)
    }
}

/// The entries the log panel keeps.
pub open spec fn shown_entry() -> spec_fn(LogEntry) -> bool {
    |e: LogEntry| displayable(e.message@)
}

/// Appends the displayable entries and, past the buffer limit, drops the
/// oldest so that 100 lines of headroom remain.
pub fn append_logs(logs: &mut Vec<LogEntry>, entries: Vec<LogEntry>)
    requires
        old(logs)@.len() + entries@.len() <= usize::MAX,
    ensures
        ({
            let kept = old(logs)@ + entries@.filter(shown_entry());
            if kept.len() > LOG_BUFFER_LIMIT {
                final(logs)@ == kept.subrange(
                    kept.len() - (LOG_BUFFER_LIMIT - 100),
                    kept.len() as int,
                )
            } else {
                final(logs)@ == kept
            }
        }),
        final(logs)@.len() <= LOG_BUFFER_LIMIT,
{
    let ghost start = logs@;
    let ghost all = entries@;
    let mut entries = entries;
    let n = entries.len();
    let mut i: usize = 0;
    while i < n
        invariant
            0 <= i <= n,
            n == all.len(),
            entries@ == all.subrange(i as int, n as int),
            start.len() + n <= usize::MAX,
            logs@ == start + all.subrange(0, i as int).filter(shown_entry()),
        decreases n - i,
    {
        let e = entries.remove(0);
        assert(e == all[i as int]);
        proof {
            assert(all.subrange(0, i + 1).drop_last() =~= all.subrange(0, i as int));
            reveal(Seq::filter);
        }
        if is_displayable(&e) {
            logs.push(e);
        }
        assert(entries@ =~= all.subrange(i + 1, n as int));
        assert(logs@ =~= start + all.subrange(0, i + 1).filter(shown_entry()));
        i = i + 1;
    }
    assert(all.subrange(0, n as int) =~= all);
    let len = logs.len();
    if len > LOG_BUFFER_LIMIT {
        let excess = len - (LOG_BUFFER_LIMIT - 100);
        let rest = logs.split_off(excess);
        *logs = rest;
    }
}

// ───────────────────────── reading the supervisor ─────────────────────────

/// A line read from the supervisor without its line ending: a final `\n`,
/// and then a `\r` before it.
pub open spec fn supervisor_line_bytes(bytes: Seq<u8>) -> Seq<u8> {
    if bytes.len() > 0 && bytes.last() == 10u8 {
        let a = bytes.drop_last();
        if a.len() > 0 && a.last() == 13u8 {
            a.drop_last()
        } else {
            a
        }
    } else {
        bytes
    }
}

/// The text that `encoding_rs` reads from `bytes` as GBK (a byte-order mark
/// selects its encoding instead; malformed sequences become U+FFFD).
pub uninterp spec fn gbk_text(bytes: Seq<u8>) -> Seq<char>;

/// `encoding_rs::GBK.decode`, owned. Its buffer size is computed with
/// checked arithmetic that panics near `usize::MAX / 3` bytes, so inputs stay
/// well below that.
#[verifier::external_body]
fn decode_gbk(bytes: &[u8]) -> (r: String)
    requires
        bytes@.len() <= usize::MAX / 8,
    ensures
        r@ == gbk_text(bytes@),
{
    encoding_rs::GBK.decode(bytes).0.into_owned()
}

/// One line of the supervisor's stderr as text: UTF-8 when valid, else
/// GBK, which localised Windows tools write.
pub fn decode_supervisor_line(bytes: &[u8]) -> (r: String)
    requires
        bytes@.len() <= usize::MAX / 8,
    ensures
        r@ == (match utf8_text(supervisor_line_bytes(bytes@)) {
            Some(t) => t,
            None => gbk_text(supervisor_line_bytes(bytes@)),
        }),
{
    let mut n = bytes.len();
    if n > 0 && bytes[n - 1] == 10u8 {
        n = n - 1;
        if n > 0 && bytes[n - 1] == 13u8 {
            n = n - 1;
        }
    }
    let line = &bytes[0..n];
    assert(line@ =~= supervisor_line_bytes(bytes@));
    match utf8_string(line) {
        Some(t) => t,
        None => decode_gbk(line),
    }
}

// ───────────────────────── reading back what was logged ─────────────────────────

/// A connection name as one word: not empty, no whitespace, no `:`, `[`
/// or `]`.
pub open spec fn plain_name(name: Seq<char>) -> bool {
    &&& name.len() > 0
    &&& forall|k: int|
        0 <= k < name.len() ==> !is_ws(#[trigger] name[k]) && name[k] != ':' && name[k] != '['
            && name[k] != ']'
}

/// A time stamp without brackets.
pub open spec fn plain_stamp(stamp: Seq<char>) -> bool {
    forall|k: int| 0 <= k < stamp.len() ==> #[trigger] stamp[k] != '[' && stamp[k] != ']'
}

/// What follows the stamp of a line written as `name: ...` at a level:
/// a blank, the level column, a blank, `name: `.
pub open spec fn line_head(level: Level, name: Seq<char>) -> Seq<char> {
    " "@ + level_column(level) + " "@ + name + ": "@
}

proof fn lemma_reveal_log_literals()
    ensures
        "["@ == seq!['['],
        "]"@ == seq![']'],
        "] "@ == seq![']', ' '],
        " "@ == seq![' '],
        ": "@ == seq![':', ' '],
        ":"@ == seq![':'],
        "\n"@ == seq!['\n'],
        "INFO "@ == seq!['I', 'N', 'F', 'O', ' '],
        "WARN "@ == seq!['W', 'A', 'R', 'N', ' '],
        "ERROR "@ == seq!['E', 'R', 'R', 'O', 'R', ' '],
        "ERROR"@ == seq!['E', 'R', 'R', 'O', 'R'],
        " ERROR "@ == seq![' ', 'E', 'R', 'R', 'O', 'R', ' '],
{
    reveal_strlit("[");
    reveal_strlit("]");
    reveal_strlit("] ");
    reveal_strlit(" ");
    reveal_strlit(": ");
    reveal_strlit(":");
    reveal_strlit("\n");
    reveal_strlit("INFO ");
    reveal_strlit("WARN ");
    reveal_strlit("ERROR ");
    reveal_strlit("ERROR");
    reveal_strlit(" ERROR ");
}

/// The piece between the stamp's bracket and the next bracket starts with
/// the line's head.
proof fn lemma_piece_of_logged_line(stamp: Seq<char>, level: Level, name: Seq<char>, rest: Seq<char>) -> (piece: Seq<char>)
    requires
        plain_stamp(stamp),
        plain_name(name),
    ensures
        second_bracket_piece(log_line_of(stamp, level, name + ": "@ + rest)) == Some(piece),
        piece.len() >= line_head(level, name).len(),
        forall|k: int| 0 <= k < line_head(level, name).len() ==> piece[k] == line_head(level, name)[k],
{
    lemma_reveal_log_literals();
    let col = level_column(level);
    let line = log_line_of(stamp, level, name + ": "@ + rest);
    let m = stamp.len() as int;
    let pre = line_head(level, name);
    let body = pre + rest + "\n"@;
    assert(line =~= seq!['['] + stamp + seq![']'] + body);
    assert(line[0] == '[');
    assert(line[1] != '[');
    assert(strip_fwd_char(line, '[', 1) == 1);
    assert(strip_fwd_char(line, '[', 0) == 1);
    let t = line.subrange(1, line.len() as int);
    assert(trim_start_char(line, '[') == t);
    assert(t =~= stamp + seq![']'] + body);
    assert forall|k: int| 0 <= k < m implies t[k] != ']' by {
        assert(t[k] == stamp[k]);
    }
    lemma_find_char_at(t, ']', m);
    assert(t.subrange(m + 1, t.len() as int) =~= body);
    assert(split_once(t, "]"@) == Some((t.subrange(0, m), body)));
    let p = pre.len() as int;
    assert(col.len() == 5);
    assert forall|k: int| 0 <= k < p implies body[k] != ']' by {
        assert(body[k] == pre[k]);
        if 1 <= k < 6 {
            assert(pre[k] == col[k - 1]);
        } else if 7 <= k < 7 + name.len() {
            assert(pre[k] == name[k - 7]);
        }
    }
    lemma_find_char_not_before(body, ']', p);
    let piece = match find(body, "]"@) {
        Some(j) => body.subrange(0, j),
        None => body,
    };
    assert forall|k: int| 0 <= k < p implies piece[k] == pre[k] by {
        assert(piece[k] == body[k]);
    }
    piece
}

/// After the level token, the text starts with the name (an error line's
/// column needs no padding; the others leave one blank).
proof fn lemma_level_skipped(level: Level, name: Seq<char>, piece: Seq<char>) -> (a: Seq<char>)
    requires
        plain_name(name),
        piece.len() >= line_head(level, name).len(),
        forall|k: int| 0 <= k < line_head(level, name).len() ==> piece[k] == line_head(level, name)[k],
    ensures
        after_level(trim_start(piece)) == Some(a),
        ({
            let w: int = if level == Level::Error { 0 } else { 1 };
            &&& a.len() >= w + name.len() + 2
            &&& forall|k: int| 0 <= k < w ==> a[k] == ' '
            &&& forall|k: int| 0 <= k < name.len() ==> a[w + k] == name[k]
            &&& a[w + name.len()] == ':'
            &&& a[w + name.len() + 1] == ' '
        }),
{
    lemma_reveal_log_literals();
    let col = level_column(level);
    let pre = line_head(level, name);
    let p = pre.len() as int;
    assert(col.len() == 5);
    assert(piece[0] == ' ');
    assert(piece[1] == col[0]);
    assert(!is_ws(col[0]));
    assert(skip_ws_fwd(piece, 1) == 1);
    assert(skip_ws_fwd(piece, 0) == 1);
    let q = piece.subrange(1, piece.len() as int);
    assert(trim_start(piece) == q);
    assert forall|k: int| 0 <= k < p - 1 implies q[k] == pre[k + 1] by {
        assert(q[k] == piece[k + 1]);
    }
    let off: int = if level == Level::Error { 6 } else { 5 };
    assert(q.subrange(0, 5) =~= col) by {
        assert forall|k: int| 0 <= k < 5 implies q.subrange(0, 5)[k] == col[k] by {
            assert(q[k] == pre[k + 1]);
        }
    }
    let a = q.subrange(off, q.len() as int);
    match level {
        Level::Info => {
            assert(starts_with(q, "INFO "@));
        },
        Level::Warn => {
            assert(q.subrange(0, 5) != "INFO "@) by {
                assert(q.subrange(0, 5)[0] != "INFO "@[0]);
            }
            assert(starts_with(q, "WARN "@));
        },
        Level::Error => {
            assert(q.subrange(0, 5) != "INFO "@) by {
                assert(q.subrange(0, 5)[0] != "INFO "@[0]);
            }
            assert(q.subrange(0, 5) != "WARN "@) by {
                assert(q.subrange(0, 5)[0] != "WARN "@[0]);
            }
            assert(q[5] == pre[6]);
            assert(q.subrange(0, 6) =~= "ERROR "@);
            assert(starts_with(q, "ERROR "@));
        },
    }
    assert(after_level(q) == Some(a));
    let w: int = if level == Level::Error { 0 } else { 1 };
    let n = name.len() as int;
    assert forall|k: int| 0 <= k < w + n + 2 implies a[k] == pre[k + off + 1] by {
        assert(a[k] == q[k + off]);
    }
    assert forall|k: int| 0 <= k < n implies a[w + k] == name[k] by {
        assert(a[w + k] == pre[w + k + off + 1]);
    }
    a
}

/// A text that starts with at most one blank and then `name: ` has the
/// connection `name`.
proof fn lemma_name_token(a: Seq<char>, w: int, name: Seq<char>)
    requires
        plain_name(name),
        0 <= w <= 1,
        a.len() >= w + name.len() + 2,
        forall|k: int| 0 <= k < w ==> a[k] == ' ',
        forall|k: int| 0 <= k < name.len() ==> a[w + k] == name[k],
        a[w + name.len()] == ':',
        a[w + name.len() + 1] == ' ',
    ensures
        first_word(a) == Some(name + ":"@),
        trim_end_char(name + ":"@, ':') == name,
        ends_with(name + ":"@, ":"@),
{
    lemma_reveal_log_literals();
    let n = name.len() as int;
    assert(!is_ws(a[w])) by {
        assert(a[w] == name[0]);
    }
    if w == 1 {
        assert(a[0] == ' ');
        assert(skip_ws_fwd(a, 1) == 1);
    }
    assert(skip_ws_fwd(a, 0) == w);
    assert forall|k: int| w <= k < w + n + 1 implies !is_ws(#[trigger] a[k]) by {
        if k < w + n {
            assert(a[k] == name[k - w]);
        }
    }
    lemma_word_end_at(a, w, w + n + 1);
    let token = a.subrange(w, w + n + 1);
    assert(token =~= name + ":"@);
    assert(token.subrange(token.len() - 1, token.len() as int) =~= ":"@);
    assert(token[n - 1] == name[n - 1]);
    assert(strip_back_char(token, ':', n) == n);
    assert(strip_back_char(token, ':', n + 1) == n);
    assert(trim_end_char(token, ':') =~= name);
}

/// The log panel attributes a supervisor line to its connection: a line
/// that the supervisor writes as `name: ...` at any level is read back with
/// that connection name, and an error line is read back as an error.
pub proof fn lemma_logged_connection_read_back(
    stamp: Seq<char>,
    level: Level,
    name: Seq<char>,
    rest: Seq<char>,
)
    requires
        plain_stamp(stamp),
        plain_name(name),
    ensures
        connection_of(log_line_of(stamp, level, name + ": "@ + rest)) == Some(name),
        level == Level::Error ==> severity_of(log_line_of(stamp, level, name + ": "@ + rest))
            == Severity::Error,
{
    let line = log_line_of(stamp, level, name + ": "@ + rest);
    let piece = lemma_piece_of_logged_line(stamp, level, name, rest);
    let a = lemma_level_skipped(level, name, piece);
    let w: int = if level == Level::Error { 0 } else { 1 };
    lemma_name_token(a, w, name);
    assert(!has_char(name, '['));
    assert(connection_of(line) == Some(name));
    if level == Level::Error {
        lemma_reveal_log_literals();
        let e = " ERROR "@;
        let m = stamp.len() as int;
        assert(line =~= seq!['['] + stamp + seq![']'] + line_head(level, name) + rest + "\n"@);
        assert(line.subrange(m + 2, m + 9) =~= e);
        crate::text::lemma_find_from_result(line, e, 0);
        assert(crate::text::match_at(line, e, m + 2));
    }
}

} // verus!
