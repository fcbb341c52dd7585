//! The log pane's clock face in the machine's own time zone.

use vstd::prelude::*;

use chrono::{Local, TimeZone, Timelike};

use crate::log::{push_two_digits, two_digits};
use crate::text::{owned, push_str};

verus! {

/// `HH:MM:SS` of a local hour, minute and second; `??:??:??` where the
/// instant has no single local time.
pub open spec fn clock_face(fields: Option<(u32, u32, u32)>) -> Seq<char> {
    match fields {
        Some((h, m, s)) => two_digits(h as nat) + ":"@ + two_digits(m as nat) + ":"@ + two_digits(
            s as nat,
        ),
        None => "??:??:??"@,
    }
}

/// Renders a local hour, minute and second, or the placeholder.
pub fn clock_text(fields: Option<(u32, u32, u32)>) -> (r: String)
    ensures
        r@ == clock_face(fields),
{
    match fields {
        Some((h, m, s)) => {
            let mut out = String::new();
            push_two_digits(&mut out, h as u64);
            push_str(&mut out, ":");
            push_two_digits(&mut out, m as u64);
            push_str(&mut out, ":");
            push_two_digits(&mut out, s as u64);
            assert(out@ =~= clock_face(fields));
            out
        },
        None => owned("??:??:??"),
    }
}

/// `chrono::Local.timestamp_opt(secs as i64, 0).single()`, handed back as the
/// local `hour()`, `minute()` and `second()`, which chrono documents as
/// 0..=23, 0..=59 and 0..=59. Which local time it is depends on the
/// machine's time zone, so nothing more is stated.
#[verifier::external_body]
fn local_clock(secs: u64) -> (r: Option<(u32, u32, u32)>)
    ensures
        match r {
            Some((h, m, s)) => h < 24 && m < 60 && s < 60,
            None => true,
        },
{
    match Local.timestamp_opt(secs as i64, 0).single() {
        Some(moment) => Some((moment.hour(), moment.minute(), moment.second())),
        None => None,
    }
}

/// Renders a Unix epoch timestamp as local `HH:MM:SS` (24-hour), or
/// `??:??:??` where the machine's time zone gives it no single local time.
pub fn format_unix_ts(secs: u64) -> (r: String)
    ensures
        r@ == "??:??:??"@ || exists|h: u32, m: u32, s: u32|
            h < 24 && m < 60 && s < 60 && r@ == #[trigger] clock_face(Some((h, m, s))),
{
    let fields = local_clock(secs);
    clock_text(fields)
}

} // verus!
