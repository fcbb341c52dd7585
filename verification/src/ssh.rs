//! The ssh command lines the supervisor starts, and how a connectivity probe
//! is reported.

use vstd::prelude::*;

use crate::config::{
    destination_of, has_password_of, ConnectionConfig, ForwardConfig, ForwardMode, KeepaliveConfig,
};
use crate::text::{dec, dec_string, owned, push_chars, push_str, str_chars, strings_view, trim, trim_slice};

verus! {

/// The ssh flag for a forward mode.
pub open spec fn mode_flag(m: ForwardMode) -> Seq<char> {
    match m {
        ForwardMode::Local => "-L"@,
        ForwardMode::Remote => "-R"@,
        ForwardMode::Dynamic => "-D"@,
    }
}

/// `-L/-R/-D <spec>` for every enabled forward, in order.
pub open spec fn forward_args(fs: Seq<ForwardConfig>) -> Seq<Seq<char>>
    decreases fs.len(),
{
    if fs.len() == 0 {
        Seq::empty()
    } else {
        forward_args(fs.drop_last()) + if fs.last().enabled {
            seq![mode_flag(fs.last().mode), fs.last().forward@]
        } else {
            Seq::empty()
        }
    }
}

/// `-o BatchMode=yes` unless a password is configured.
pub open spec fn batch_args(c: ConnectionConfig) -> Seq<Seq<char>> {
    if has_password_of(c) {
        Seq::empty()
    } else {
        seq!["-o"@, "BatchMode=yes"@]
    }
}

/// `-p <port>` when a port is configured.
pub open spec fn port_args(c: ConnectionConfig) -> Seq<Seq<char>> {
    match c.port {
        Some(p) => seq!["-p"@, dec(p as nat)],
        None => Seq::empty(),
    }
}

/// The arguments of the long-running tunnel process.
pub open spec fn tunnel_args(c: ConnectionConfig, k: KeepaliveConfig) -> Seq<Seq<char>> {
    seq!["-N"@, "-T"@] + batch_args(c) + seq![
        "-o"@,
        "ExitOnForwardFailure=yes"@,
        "-o"@,
        "ConnectTimeout="@ + dec(k.connect_timeout as nat),
        "-o"@,
        "ServerAliveInterval="@ + dec(k.interval as nat),
        "-o"@,
        "ServerAliveCountMax="@ + dec(k.count_max as nat),
        "-o"@,
        "LogLevel=DEBUG1"@,
    ] + port_args(c) + strings_view(c.extra_args@) + forward_args(c.forwards@) + seq![
        destination_of(c),
    ]
}

/// The arguments of the one-shot connectivity probe: no `-N`, no forwards, and
/// a no-op remote command.
pub open spec fn probe_args(c: ConnectionConfig, k: KeepaliveConfig) -> Seq<Seq<char>> {
    seq!["-o"@, "ConnectTimeout="@ + dec(k.connect_timeout as nat), "-o"@, "LogLevel=ERROR"@]
        + batch_args(c) + port_args(c) + strings_view(c.extra_args@) + seq![
        destination_of(c),
        "true"@,
    ]
}

/// The probe logs in as the tunnel does: both pass the configured extra ssh
/// arguments, the probe right before the destination and its no-op
/// command, the tunnel right before its forwards and the destination.
pub proof fn lemma_probe_passes_extra_args(c: ConnectionConfig, k: KeepaliveConfig)
    ensures
        ({
            let e = strings_view(c.extra_args@);
            let p = probe_args(c, k);
            &&& p.len() >= e.len() + 2
            &&& p.subrange(p.len() - e.len() - 2, p.len() as int) == e + seq![
                destination_of(c),
                "true"@,
            ]
        }),
        ({
            let e = strings_view(c.extra_args@);
            let f = forward_args(c.forwards@);
            let t = tunnel_args(c, k);
            &&& t.len() >= e.len() + f.len() + 1
            &&& t.subrange(t.len() - e.len() - f.len() - 1, t.len() as int) == e + f + seq![
                destination_of(c),
            ]
        }),
{
    let e = strings_view(c.extra_args@);
    let p = probe_args(c, k);
    let pre = seq!["-o"@, "ConnectTimeout="@ + dec(k.connect_timeout as nat), "-o"@, "LogLevel=ERROR"@]
        + batch_args(c) + port_args(c);
    assert(p =~= pre + (e + seq![destination_of(c), "true"@]));
    assert(p.subrange(p.len() - e.len() - 2, p.len() as int) =~= e + seq![destination_of(c), "true"@]);
    let f = forward_args(c.forwards@);
    let t = tunnel_args(c, k);
    let tpre = seq!["-N"@, "-T"@] + batch_args(c) + seq![
        "-o"@,
        "ExitOnForwardFailure=yes"@,
        "-o"@,
        "ConnectTimeout="@ + dec(k.connect_timeout as nat),
        "-o"@,
        "ServerAliveInterval="@ + dec(k.interval as nat),
        "-o"@,
        "ServerAliveCountMax="@ + dec(k.count_max as nat),
        "-o"@,
        "LogLevel=DEBUG1"@,
    ] + port_args(c);
    assert(t =~= tpre + (e + f + seq![destination_of(c)]));
    assert(t.subrange(t.len() - e.len() - f.len() - 1, t.len() as int) =~= e + f + seq![destination_of(c)]);
}

/// The tunnel always runs without a remote command or terminal, exits when a
/// forward fails, never prompts for a password unless one is configured,
/// and names the destination last.
pub proof fn lemma_tunnel_args_shape(c: ConnectionConfig, k: KeepaliveConfig)
    ensures
        ({
            let a = tunnel_args(c, k);
            let b = if has_password_of(c) {
                0int
            } else {
                2int
            };
            &&& a.len() >= 13
            &&& a[0] == "-N"@
            &&& a[1] == "-T"@
            &&& !has_password_of(c) ==> a[2] == "-o"@ && a[3] == "BatchMode=yes"@
            &&& a[2 + b] == "-o"@
            &&& a[3 + b] == "ExitOnForwardFailure=yes"@
            &&& a.last() == destination_of(c)
        }),
{
}

/// The probe runs the no-op command `true` on the destination and never
/// prompts for a password unless one is configured.
pub proof fn lemma_probe_args_shape(c: ConnectionConfig, k: KeepaliveConfig)
    ensures
        ({
            let a = probe_args(c, k);
            &&& a.len() >= 6
            &&& a.last() == "true"@
            &&& a[a.len() - 2] == destination_of(c)
            &&& !has_password_of(c) ==> a[4] == "-o"@ && a[5] == "BatchMode=yes"@
        }),
{
}

/// Disabled forwards give no arguments.
pub proof fn lemma_disabled_forwards_omitted(fs: Seq<ForwardConfig>)
    requires
        forall|i: int| 0 <= i < fs.len() ==> !(#[trigger] fs[i]).enabled,
    ensures
        forward_args(fs) == Seq::<Seq<char>>::empty(),
    decreases fs.len(),
{
    if fs.len() > 0 {
        lemma_disabled_forwards_omitted(fs.drop_last());
        assert(forward_args(fs) =~= forward_args(fs.drop_last()));
    }
}

fn push_arg(args: &mut Vec<String>, s: &str)
    ensures
        strings_view(final(args)@) == strings_view(old(args)@).push(s@),
{
    args.push(owned(s));
    proof {
        assert(strings_view(args@) =~= strings_view(old(args)@).push(s@));
    }
}

fn push_owned(args: &mut Vec<String>, s: String)
    ensures
        strings_view(final(args)@) == strings_view(old(args)@).push(s@),
{
    args.push(s);
    proof {
        assert(strings_view(args@) =~= strings_view(old(args)@).push(s@));
    }
}

fn labelled_number(label: &str, n: u64) -> (r: String)
    ensures
        r@ == label@ + dec(n as nat),
{
    let mut r = owned(label);
    let d = dec_string(n);
    push_str(&mut r, d.as_str());
    r
}

fn push_batch(args: &mut Vec<String>, c: &ConnectionConfig)
    ensures
        strings_view(final(args)@) == strings_view(old(args)@) + batch_args(*c),
{
    if !c.has_password() {
        push_arg(args, "-o");
        push_arg(args, "BatchMode=yes");
    }
    assert(strings_view(args@) =~= strings_view(old(args)@) + batch_args(*c));
}

fn push_port(args: &mut Vec<String>, c: &ConnectionConfig)
    ensures
        strings_view(final(args)@) == strings_view(old(args)@) + port_args(*c),
{
    if let Some(p) = c.port {
        push_arg(args, "-p");
        push_owned(args, dec_string(p as u64));
    }
    assert(strings_view(args@) =~= strings_view(old(args)@) + port_args(*c));
}

fn push_extra(args: &mut Vec<String>, c: &ConnectionConfig)
    ensures
        strings_view(final(args)@) == strings_view(old(args)@) + strings_view(c.extra_args@),
{
    let mut i: usize = 0;
    while i < c.extra_args.len()
        invariant
            i <= c.extra_args@.len(),
            strings_view(args@) == strings_view(old(args)@) + strings_view(
                c.extra_args@.subrange(0, i as int),
            ),
        decreases c.extra_args@.len() - i,
    {
        push_owned(args, c.extra_args[i].clone());
        proof {
            assert(strings_view(c.extra_args@.subrange(0, i + 1)) =~= strings_view(
                c.extra_args@.subrange(0, i as int),
            ).push(c.extra_args@[i as int]@));
        }
        i = i + 1;
    }
    assert(c.extra_args@.subrange(0, c.extra_args@.len() as int) =~= c.extra_args@);
}

/// The ssh flag for a forward mode.
pub fn flag_of(m: ForwardMode) -> (r: &'static str)
    ensures
        r@ == mode_flag(m),
{
    match m {
        ForwardMode::Local => "-L",
        ForwardMode::Remote => "-R",
        ForwardMode::Dynamic => "-D",
    }
}

fn push_forwards(args: &mut Vec<String>, c: &ConnectionConfig)
    ensures
        strings_view(final(args)@) == strings_view(old(args)@) + forward_args(c.forwards@),
{
    let mut i: usize = 0;
    while i < c.forwards.len()
        invariant
            i <= c.forwards@.len(),
            strings_view(args@) == strings_view(old(args)@) + forward_args(
                c.forwards@.subrange(0, i as int),
            ),
        decreases c.forwards@.len() - i,
    {
        let f = &c.forwards[i];
        proof {
            assert(c.forwards@.subrange(0, i + 1).drop_last() =~= c.forwards@.subrange(
                0,
                i as int,
            ));
        }
        if f.enabled {
            push_arg(args, flag_of(f.mode));
            push_owned(args, f.forward.clone());
        }
        assert(strings_view(args@) =~= strings_view(old(args)@) + forward_args(
            c.forwards@.subrange(0, i + 1),
        ));
        i = i + 1;
    }
    assert(c.forwards@.subrange(0, c.forwards@.len() as int) =~= c.forwards@);
}

/// Arguments of the tunnel process: `-N -T`, batch mode unless a password is
/// set, the keepalive options, `LogLevel=DEBUG1` for forward diagnostics, the
/// port, the extra arguments, every enabled forward, and the destination.
pub fn args(connection: &ConnectionConfig, keepalive: &KeepaliveConfig) -> (r: Vec<String>)
    ensures
        strings_view(r@) == tunnel_args(*connection, *keepalive),
{
    let mut args: Vec<String> = Vec::new();
    push_arg(&mut args, "-N");
    push_arg(&mut args, "-T");
    push_batch(&mut args, connection);
    push_arg(&mut args, "-o");
    push_arg(&mut args, "ExitOnForwardFailure=yes");
    push_arg(&mut args, "-o");
    push_owned(&mut args, labelled_number("ConnectTimeout=", keepalive.connect_timeout));
    push_arg(&mut args, "-o");
    push_owned(&mut args, labelled_number("ServerAliveInterval=", keepalive.interval));
    push_arg(&mut args, "-o");
    push_owned(&mut args, labelled_number("ServerAliveCountMax=", keepalive.count_max as u64));
    push_arg(&mut args, "-o");
    push_arg(&mut args, "LogLevel=DEBUG1");
    push_port(&mut args, connection);
    push_extra(&mut args, connection);
    push_forwards(&mut args, connection);
    push_owned(&mut args, connection.destination());
    assert(strings_view(args@) =~= tunnel_args(*connection, *keepalive));
    args
}

/// Arguments of the connectivity probe (`ssh … true`).
pub fn test_args(connection: &ConnectionConfig, keepalive: &KeepaliveConfig) -> (r: Vec<String>)
    ensures
        strings_view(r@) == probe_args(*connection, *keepalive),
{
    let mut args: Vec<String> = Vec::new();
    push_arg(&mut args, "-o");
    push_owned(&mut args, labelled_number("ConnectTimeout=", keepalive.connect_timeout));
    push_arg(&mut args, "-o");
    push_arg(&mut args, "LogLevel=ERROR");
    push_batch(&mut args, connection);
    push_port(&mut args, connection);
    push_extra(&mut args, connection);
    push_owned(&mut args, connection.destination());
    push_arg(&mut args, "true");
    assert(strings_view(args@) =~= probe_args(*connection, *keepalive));
    args
}

/// The ssh executable used when none is configured.
pub fn default_ssh_path(windows: bool) -> (r: String)
    ensures
        r@ == (if windows {
            "C:\\Windows\\System32\\OpenSSH\\ssh.exe"@
        } else {
            "ssh"@
        }),
{
    if windows {
        owned("C:\\Windows\\System32\\OpenSSH\\ssh.exe")
    } else {
        owned("ssh")
    }
}

/// The ssh executable: the configured one, else the platform default.
pub open spec fn ssh_program_of(c: ConnectionConfig, windows: bool) -> Seq<char> {
    match c.ssh_path {
        Some(p) => p@,
        None => if windows {
            "C:\\Windows\\System32\\OpenSSH\\ssh.exe"@
        } else {
            "ssh"@
        },
    }
}

/// A process to start: program, arguments, and the password handed to
/// `sshpass` through its environment, if any.
#[derive(Debug)]
pub struct LaunchCommand {
    pub program: String,
    pub args: Vec<String>,
    /// The value of `SSHPASS`.
    pub sshpass_password: Option<String>,
}

/// How a connection's ssh (or its probe) is started: directly, or through
/// `sshpass -e` when a password is set, so that the password is read from
/// the environment and never appears on the command line.
pub fn launch_command(
    connection: &ConnectionConfig,
    keepalive: &KeepaliveConfig,
    windows: bool,
    probe: bool,
) -> (r: LaunchCommand)
    ensures
        ({
            let ssh = ssh_program_of(*connection, windows);
            let base = if probe {
                probe_args(*connection, *keepalive)
            } else {
                tunnel_args(*connection, *keepalive)
            };
            if has_password_of(*connection) {
                &&& r.program@ == "sshpass"@
                &&& strings_view(r.args@) == seq!["-e"@, ssh] + base
                &&& crate::text::opt_view(r.sshpass_password) == crate::text::opt_view(connection.password)
            } else {
                &&& r.program@ == ssh
                &&& strings_view(r.args@) == base
                &&& r.sshpass_password is None
            }
        }),
{
    let ssh = match &connection.ssh_path {
        Some(p) => p.clone(),
        None => default_ssh_path(windows),
    };
    let base = if probe {
        test_args(connection, keepalive)
    } else {
        args(connection, keepalive)
    };
    if connection.has_password() {
        let mut all: Vec<String> = Vec::new();
        all.push(owned("-e"));
        let ghost head = strings_view(all@);
        all.push(ssh);
        let mut rest = base;
        let ghost tail = strings_view(rest@);
        all.append(&mut rest);
        proof {
            reveal_strlit("-e");
            assert(strings_view(all@) =~= seq!["-e"@, ssh_program_of(*connection, windows)] + tail);
        }
        LaunchCommand {
            program: owned("sshpass"),
            args: all,
            sshpass_password: crate::text::clone_opt(&connection.password),
        }
    } else {
        LaunchCommand { program: ssh, args: base, sshpass_password: None }
    }
}

/// Result of a one-shot SSH connectivity probe (`ssh … true`).
#[derive(Debug)]
pub struct TestOutput {
    pub ok: bool,
    pub message: String,
}

/// How the probe process ended.
pub enum ProbeEnd {
    /// It could not be started; the text is the operating system's error.
    SpawnFailed(String),
    /// It exited; `status` is the exit status as the platform prints it.
    Exited { success: bool, status: String },
    /// It was killed after `seconds`.
    TimedOut { seconds: u64 },
}

/// ` — <stderr>` when the trimmed stderr is not empty.
pub open spec fn stderr_tail(stderr: Seq<char>) -> Seq<char> {
    if trim(stderr).len() == 0 {
        Seq::empty()
    } else {
        " \u{2014} "@ + trim(stderr)
    }
}

/// The probe's verdict and message for each way it can end.
pub open spec fn probe_report(destination: Seq<char>, end: ProbeEnd, stderr: Seq<char>) -> (
    bool,
    Seq<char>,
) {
    match end {
        ProbeEnd::SpawnFailed(e) => (false, "cannot spawn ssh: "@ + e@),
        ProbeEnd::Exited { success, status } => if success {
            (true, "connected to "@ + destination + stderr_tail(stderr))
        } else {
            (false, "ssh exited with "@ + status@ + stderr_tail(stderr))
        },
        ProbeEnd::TimedOut { seconds } => (
            false,
            "test timed out after "@ + dec(seconds as nat) + "s"@ + stderr_tail(stderr),
        ),
    }
}

/// The probe needs sshpass and sshpass cannot be started.
pub fn missing_sshpass_output() -> (r: TestOutput)
    ensures
        !r.ok,
        r.message@ == "password auth requires `sshpass` on PATH; install it and retry"@,
{
    TestOutput {
        ok: false,
        message: owned("password auth requires `sshpass` on PATH; install it and retry"),
    }
}

fn push_tail(out: &mut String, stderr: &str)
    ensures
        final(out)@ == old(out)@ + stderr_tail(stderr@),
{
    let cs = str_chars(stderr);
    let t = trim_slice(cs.as_slice());
    if t.len() != 0 {
        push_str(out, " \u{2014} ");
        push_chars(out, t);
    }
    assert(out@ =~= old(out)@ + stderr_tail(stderr@));
}

/// Turns the way the probe ended, and what it wrote on stderr, into the
/// report shown in the dialog.
pub fn probe_output(connection: &ConnectionConfig, end: ProbeEnd, stderr: &str) -> (r: TestOutput)
    ensures
        (r.ok, r.message@) == probe_report(destination_of(*connection), end, stderr@),
{
    match end {
        ProbeEnd::SpawnFailed(e) => {
            let mut m = owned("cannot spawn ssh: ");
            push_str(&mut m, e.as_str());
            TestOutput { ok: false, message: m }
        },
        ProbeEnd::Exited { success, status } => {
            if success {
                let mut m = owned("connected to ");
                let d = connection.destination();
                push_str(&mut m, d.as_str());
                push_tail(&mut m, stderr);
                TestOutput { ok: true, message: m }
            } else {
                let mut m = owned("ssh exited with ");
                push_str(&mut m, status.as_str());
                push_tail(&mut m, stderr);
                TestOutput { ok: false, message: m }
            }
        },
        ProbeEnd::TimedOut { seconds } => {
            let mut m = owned("test timed out after ");
            let d = dec_string(seconds);
            push_str(&mut m, d.as_str());
            push_str(&mut m, "s");
            push_tail(&mut m, stderr);
            TestOutput { ok: false, message: m }
        },
    }
}

} // verus!
