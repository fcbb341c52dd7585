//! Windows integration that does not need Windows to decide: the service's
//! control replies and exit code, the `sc.exe` and `taskkill` command lines,
//! and the error note a failed service leaves beside its configuration.

use vstd::prelude::*;

use crate::text::{dec, dec_string, owned, push_str};

verus! {

/// The service's name in the Service Control Manager.
pub const SERVICE_NAME: &'static str = "rust-autossh";

/// The file, beside the configuration, where a failed service says why.
pub const SERVICE_ERROR_LOG: &'static str = "rust-autossh.service-error.log";

/// A request of the Service Control Manager.
#[derive(Clone, Copy, Debug, PartialEq, Eq, Structural)]
pub enum ServiceControl {
    Stop,
    Shutdown,
    Interrogate,
    Other,
}

/// How the service answers a request.
#[derive(Clone, Copy, Debug, PartialEq, Eq, Structural)]
pub struct ControlReply {
    /// The supervisor is asked to stop.
    pub stop: bool,
    /// The request is handled (otherwise: not implemented).
    pub handled: bool,
}

/// Stop and shutdown stop the supervisor; interrogation is answered; the
/// rest is not implemented.
pub open spec fn control_reply_of(c: ServiceControl) -> ControlReply {
    match c {
        ServiceControl::Stop | ServiceControl::Shutdown => ControlReply { stop: true, handled: true },
        ServiceControl::Interrogate => ControlReply { stop: false, handled: true },
        ServiceControl::Other => ControlReply { stop: false, handled: false },
    }
}

pub fn control_reply(c: ServiceControl) -> (r: ControlReply)
    ensures
        r == control_reply_of(c),
{
    match c {
        ServiceControl::Stop | ServiceControl::Shutdown => ControlReply { stop: true, handled: true },
        ServiceControl::Interrogate => ControlReply { stop: false, handled: true },
        ServiceControl::Other => ControlReply { stop: false, handled: false },
    }
}

/// The service-specific exit code: none after a clean stop, `1` after the
/// supervisor failed.
pub fn service_exit_code(supervisor_ok: bool) -> (r: Option<u32>)
    ensures
        supervisor_ok ==> r is None,
        !supervisor_ok ==> r == Some(1u32),
{
    if supervisor_ok {
        None
    } else {
        Some(1)
    }
}

/// `rust-autossh service stopped: ERROR` and a newline.
pub fn service_error_note(error: &str) -> (r: String)
    ensures
        r@ == "rust-autossh service stopped: "@ + error@ + "\n"@,
{
    let mut m = owned("rust-autossh service stopped: ");
    push_str(&mut m, error);
    push_str(&mut m, "\n");
    m
}

/// The `sc.exe create` arguments that register the automatic service for
/// this executable and configuration.
pub open spec fn sc_create_args_of(exe: Seq<char>, config: Seq<char>) -> Seq<Seq<char>> {
    seq![
        "create"@,
        SERVICE_NAME@,
        "binPath= \""@ + exe + "\" service --config \""@ + config + "\""@,
        "start= auto"@,
        "DisplayName= rust-autossh"@,
    ]
}

fn push_text(v: &mut Vec<String>, s: &str)
    ensures
        crate::text::strings_view(final(v)@) == crate::text::strings_view(old(v)@).push(s@),
{
    let ghost before = crate::text::strings_view(v@);
    v.push(owned(s));
    assert(crate::text::strings_view(v@) =~= before.push(s@));
}

pub fn sc_create_args(exe: &str, config: &str) -> (r: Vec<String>)
    ensures
        crate::text::strings_view(r@) == sc_create_args_of(exe@, config@),
{
    let mut args: Vec<String> = Vec::new();
    push_text(&mut args, "create");
    push_text(&mut args, SERVICE_NAME);
    let mut bin = owned("binPath= \"");
    push_str(&mut bin, exe);
    push_str(&mut bin, "\" service --config \"");
    push_str(&mut bin, config);
    push_str(&mut bin, "\"");
    push_text(&mut args, bin.as_str());
    push_text(&mut args, "start= auto");
    push_text(&mut args, "DisplayName= rust-autossh");
    assert(crate::text::strings_view(args@) =~= sc_create_args_of(exe@, config@));
    args
}

/// The `sc.exe` arguments of a plain service command (`start`, `stop`,
/// `delete`, or `description` with its text).
pub fn sc_service_args(verb: &str, extra: Option<&str>) -> (r: Vec<String>)
    ensures
        crate::text::strings_view(r@) == (match extra {
            Some(e) => seq![verb@, SERVICE_NAME@, e@],
            None => seq![verb@, SERVICE_NAME@],
        }),
{
    let mut args: Vec<String> = Vec::new();
    push_text(&mut args, verb);
    push_text(&mut args, SERVICE_NAME);
    if let Some(e) = extra {
        push_text(&mut args, e);
    }
    args
}

/// `taskkill /PID pid /T /F`: ends a process with all its children.
pub fn taskkill_args(pid: u32) -> (r: Vec<String>)
    ensures
        crate::text::strings_view(r@) == seq!["/PID"@, dec(pid as nat), "/T"@, "/F"@],
{
    let mut args: Vec<String> = Vec::new();
    push_text(&mut args, "/PID");
    let digits = dec_string(pid as u64);
    push_text(&mut args, digits.as_str());
    push_text(&mut args, "/T");
    push_text(&mut args, "/F");
    args
}

/// The name of the supervisor program beside the graphical front end.
pub fn supervisor_binary(windows: bool) -> (r: &'static str)
    ensures
        r@ == (if windows {
            "rust-autossh.exe"@
        } else {
            "rust-autossh"@
        }),
{
    if windows {
        "rust-autossh.exe"
    } else {
        "rust-autossh"
    }
}

} // verus!
