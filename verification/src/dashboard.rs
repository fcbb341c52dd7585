//! The status bar: the supervisor's state, whether edits are saved, and the
//! tone of the last message.

use vstd::prelude::*;

use crate::text::{starts_with, starts_with_in, str_chars};

verus! {

/// The supervisor as the status bar shows it.
#[derive(Clone, Copy, Debug, PartialEq, Eq, Structural)]
pub enum SupervisorStatus {
    NotStarted,
    Running,
    Exited,
}

/// No handle: not started; a handle whose process lives: running;
/// otherwise exited.
pub fn supervisor_status(started: bool, alive: bool) -> (r: SupervisorStatus)
    ensures
        !started ==> r == SupervisorStatus::NotStarted,
        started && alive ==> r == SupervisorStatus::Running,
        started && !alive ==> r == SupervisorStatus::Exited,
{
    if !started {
        SupervisorStatus::NotStarted
    } else if alive {
        SupervisorStatus::Running
    } else {
        SupervisorStatus::Exited
    }
}

pub open spec fn status_text_of(s: SupervisorStatus) -> Seq<char> {
    match s {
        SupervisorStatus::NotStarted => "not started"@,
        SupervisorStatus::Running => "running"@,
        SupervisorStatus::Exited => "exited"@,
    }
}

pub fn status_text(s: SupervisorStatus) -> (r: &'static str)
    ensures
        r@ == status_text_of(s),
{
    match s {
        SupervisorStatus::NotStarted => "not started",
        SupervisorStatus::Running => "running",
        SupervisorStatus::Exited => "exited",
    }
}

/// The saved/unsaved chip.
pub fn dirty_label(dirty: bool) -> (r: &'static str)
    ensures
        r@ == (if dirty {
            "\u{25cf} unsaved"@
        } else {
            "\u{2713} saved"@
        }),
{
    if dirty {
        "\u{25cf} unsaved"
    } else {
        "\u{2713} saved"
    }
}

/// The colour family of a status message.
#[derive(Clone, Copy, Debug, PartialEq, Eq, Structural)]
pub enum Tone {
    Success,
    Warning,
    Muted,
}

/// Starting messages read as success, stopping ones as warnings, the rest
/// muted.
pub open spec fn tone_of(message: Seq<char>) -> Tone {
    if starts_with(message, "starting "@) || starts_with(message, "supervisor started"@) {
        Tone::Success
    } else if starts_with(message, "stopping "@) {
        Tone::Warning
    } else {
        Tone::Muted
    }
}

pub fn message_tone(message: &str) -> (r: Tone)
    ensures
        r == tone_of(message@),
{
    let m = str_chars(message);
    let starting = str_chars("starting ");
    let started = str_chars("supervisor started");
    let stopping = str_chars("stopping ");
    if starts_with_in(m.as_slice(), starting.as_slice()) || starts_with_in(
        m.as_slice(),
        started.as_slice(),
    ) {
        Tone::Success
    } else if starts_with_in(m.as_slice(), stopping.as_slice()) {
        Tone::Warning
    } else {
        Tone::Muted
    }
}

} // verus!
