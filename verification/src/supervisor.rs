//! Decisions of the connection supervisor: the retry back-off of one
//! connection's worker, which workers a changed configuration restarts,
//! how reload errors are reported, and how ssh's stderr bytes become text.
//!
//! Threads, child processes and sleeping belong to the program around the
//! library, which asks these functions what to do next.

use vstd::prelude::*;

use crate::config::{same_connection, same_forward, same_forwards, ConnectionConfig, ForwardConfig, LogConfig, RetryConfig};
use crate::text::{eq_chars, opt_view, owned, push_str, str_chars, strings_view};
use vstd::utf8::{decode_utf8, valid_utf8};

verus! {

// ───────────────────────── retry back-off ─────────────────────────

/// Twice the delay, or the largest `u64` when that overflows.
pub open spec fn doubled(delay: u64) -> u64 {
    if 2 * delay > u64::MAX {
        u64::MAX
    } else {
        (2 * delay) as u64
    }
}

/// The delay before the next retry after one: doubled, but never above the
/// configured maximum.
pub open spec fn next_delay_of(delay: u64, retry: RetryConfig) -> u64 {
    if doubled(delay) < retry.maximum_seconds {
        doubled(delay)
    } else {
        retry.maximum_seconds
    }
}

/// The delay to wait after a run: a run that lasted at least the stable
/// time resets it to the initial delay.
pub open spec fn delay_after_run_of(delay: u64, retry: RetryConfig, ran_secs: u64) -> u64 {
    if ran_secs >= retry.stable_seconds {
        retry.initial_seconds
    } else {
        delay
    }
}

/// `delay.saturating_mul(2).min(retry.maximum_seconds)`.
pub fn next_retry_delay(delay: u64, retry: &RetryConfig) -> (r: u64)
    ensures
        r == next_delay_of(delay, *retry),
{
    let d = if delay > u64::MAX / 2 {
        u64::MAX
    } else {
        delay * 2
    };
    if d < retry.maximum_seconds {
        d
    } else {
        retry.maximum_seconds
    }
}

/// The delay to wait after a run of `ran_secs` whole seconds, and whether
/// the run was stable (which resets the delay).
pub fn retry_delay_after_run(delay: u64, retry: &RetryConfig, ran_secs: u64) -> (r: (u64, bool))
    ensures
        r.0 == delay_after_run_of(delay, *retry, ran_secs),
        r.1 == (ran_secs >= retry.stable_seconds),
{
    if ran_secs >= retry.stable_seconds {
        (retry.initial_seconds, true)
    } else {
        (delay, false)
    }
}

/// The back-off never waits longer than the configured maximum once it has
/// doubled.
pub proof fn lemma_backoff_capped(delay: u64, retry: RetryConfig)
    ensures
        next_delay_of(delay, retry) <= retry.maximum_seconds,
{
}

/// Below the maximum, the back-off never shortens the wait.
pub proof fn lemma_backoff_grows(delay: u64, retry: RetryConfig)
    requires
        delay <= retry.maximum_seconds,
    ensures
        delay <= next_delay_of(delay, retry),
{
}

/// A stable run starts the back-off over from the initial delay; an
/// unstable one keeps the current delay.
pub proof fn lemma_stable_run_resets(delay: u64, retry: RetryConfig, ran_secs: u64)
    ensures
        ran_secs >= retry.stable_seconds ==> delay_after_run_of(delay, retry, ran_secs)
            == retry.initial_seconds,
        ran_secs < retry.stable_seconds ==> delay_after_run_of(delay, retry, ran_secs) == delay,
{
}

/// The delay after `n` unstable runs that started from `initial`.
pub open spec fn delay_after_failures(initial: u64, retry: RetryConfig, n: nat) -> u64
    decreases n,
{
    if n == 0 {
        initial
    } else {
        next_delay_of(delay_after_failures(initial, retry, (n - 1) as nat), retry)
    }
}

/// With a valid retry range, every wait of the back-off lies between the
/// initial delay and the maximum.
pub proof fn lemma_backoff_within_range(retry: RetryConfig, n: nat)
    requires
        retry.initial_seconds <= retry.maximum_seconds,
    ensures
        retry.initial_seconds <= delay_after_failures(retry.initial_seconds, retry, n)
            <= retry.maximum_seconds,
    decreases n,
{
    if n > 0 {
        lemma_backoff_within_range(retry, (n - 1) as nat);
        lemma_backoff_grows(delay_after_failures(retry.initial_seconds, retry, (n - 1) as nat), retry);
    }
}

/// The wait before the reconnect that follows run `k` of a worker whose runs
/// lasted `runs[0]`, `runs[1]`, ... whole seconds, as the worker loop
/// computes it: the delay starts at the initial one, `retry_delay_after_run`
/// gives the wait after each run, and `next_retry_delay` of that wait is the
/// delay carried to the next run.
pub open spec fn wait_after_run(retry: RetryConfig, runs: Seq<u64>, k: nat) -> u64
    decreases k,
{
    let delay = if k == 0 {
        retry.initial_seconds
    } else {
        next_delay_of(wait_after_run(retry, runs, (k - 1) as nat), retry)
    };
    delay_after_run_of(delay, retry, runs[k as int])
}

/// Over successive runs the wait starts at the initial delay, doubles
/// (saturating, capped at the maximum) after each short run, and goes back
/// to the initial delay after a run that lasted the stable time; with a
/// valid retry range it always lies between the initial delay and the
/// maximum.
pub proof fn lemma_backoff_sequence(retry: RetryConfig, runs: Seq<u64>, k: nat)
    requires
        retry.initial_seconds <= retry.maximum_seconds,
        k < runs.len(),
    ensures
        wait_after_run(retry, runs, k) == if k == 0 || runs[k as int] >= retry.stable_seconds {
            retry.initial_seconds
        } else {
            next_delay_of(wait_after_run(retry, runs, (k - 1) as nat), retry)
        },
        next_delay_of(wait_after_run(retry, runs, k), retry) == if doubled(
            wait_after_run(retry, runs, k),
        ) < retry.maximum_seconds {
            doubled(wait_after_run(retry, runs, k))
        } else {
            retry.maximum_seconds
        },
        retry.initial_seconds <= wait_after_run(retry, runs, k) <= retry.maximum_seconds,
    decreases k,
{
    if k > 0 {
        lemma_backoff_sequence(retry, runs, (k - 1) as nat);
        lemma_backoff_grows(wait_after_run(retry, runs, (k - 1) as nat), retry);
        lemma_backoff_capped(wait_after_run(retry, runs, (k - 1) as nat), retry);
    }
}

// ───────────────────────── reload errors ─────────────────────────

/// The log line for a rejected reload.
pub open spec fn reload_error_text(message: Seq<char>) -> Seq<char> {
    "configuration reload rejected; keeping unaffected connections: "@ + message
}

/// Reports a rejected reload once: the same message as last time gives no
/// line; a new one gives the line and is remembered.
pub fn reload_error_line(previous: &mut Option<String>, message: String) -> (r: Option<String>)
    ensures
        opt_view(*old(previous)) == Some(message@) ==> r is None && opt_view(*final(previous))
            == opt_view(*old(previous)),
        opt_view(*old(previous)) != Some(message@) ==> {
            &&& opt_view(r) == Some(reload_error_text(message@))
            &&& opt_view(*final(previous)) == Some(message@)
        },
{
    let same = match previous {
        Some(p) => {
            let a = str_chars(p.as_str());
            let b = str_chars(message.as_str());
            eq_chars(a.as_slice(), b.as_slice())
        },
        None => false,
    };
    if same {
        return None;
    }
    let mut line = owned("configuration reload rejected; keeping unaffected connections: ");
    push_str(&mut line, message.as_str());
    *previous = Some(message);
    Some(line)
}

/// Whether the log settings differ, which restarts every worker.
pub fn log_changed(a: &LogConfig, b: &LogConfig) -> (r: bool)
    ensures
        r == (opt_view(a.file) != opt_view(b.file)),
{
    !same_text_opt(&a.file, &b.file)
}

// ───────────────────────── reconfiguration ─────────────────────────

fn same_text(a: &String, b: &String) -> (r: bool)
    ensures
        r == (a@ == b@),
{
    let x = str_chars(a.as_str());
    let y = str_chars(b.as_str());
    eq_chars(x.as_slice(), y.as_slice())
}

fn same_text_opt(a: &Option<String>, b: &Option<String>) -> (r: bool)
    ensures
        r == (opt_view(*a) == opt_view(*b)),
{
    match (a, b) {
        (Some(x), Some(y)) => same_text(x, y),
        (None, None) => true,
        _ => false,
    }
}

fn same_texts(a: &Vec<String>, b: &Vec<String>) -> (r: bool)
    ensures
        r == (strings_view(a@) == strings_view(b@)),
{
    if a.len() != b.len() {
        assert(strings_view(a@).len() != strings_view(b@).len());
        return false;
    }
    let mut i: usize = 0;
    while i < a.len()
        invariant
            i <= a@.len(),
            a@.len() == b@.len(),
            forall|k: int| 0 <= k < i ==> (#[trigger] a@[k])@ == b@[k]@,
        decreases a@.len() - i,
    {
        if !same_text(&a[i], &b[i]) {
            assert(strings_view(a@)[i as int] != strings_view(b@)[i as int]);
            return false;
        }
        i = i + 1;
    }
    assert(strings_view(a@) =~= strings_view(b@));
    true
}

fn same_forward_exec(a: &ForwardConfig, b: &ForwardConfig) -> (r: bool)
    ensures
        r == same_forward(*a, *b),
{
    a.enabled == b.enabled && a.mode == b.mode && same_text(&a.forward, &b.forward)
        && same_text_opt(&a.description, &b.description)
}

fn same_forward_list(a: &Vec<ForwardConfig>, b: &Vec<ForwardConfig>) -> (r: bool)
    ensures
        r == same_forwards(a@, b@),
{
    if a.len() != b.len() {
        return false;
    }
    let mut i: usize = 0;
    while i < a.len()
        invariant
            i <= a@.len(),
            a@.len() == b@.len(),
            forall|k: int| 0 <= k < i ==> same_forward(#[trigger] a@[k], b@[k]),
        decreases a@.len() - i,
    {
        if !same_forward_exec(&a[i], &b[i]) {
            return false;
        }
        i = i + 1;
    }
    true
}

/// Whether two connections agree on every field.
pub fn connections_equal(a: &ConnectionConfig, b: &ConnectionConfig) -> (r: bool)
    ensures
        r == same_connection(*a, *b),
{
    same_text(&a.name, &b.name) && same_text_opt(&a.description, &b.description) && same_text_opt(
        &a.host,
        &b.host,
    ) && same_text_opt(&a.user, &b.user) && same_text_opt(&a.password, &b.password) && a.port
        == b.port && a.enabled == b.enabled && same_text_opt(&a.ssh_path, &b.ssh_path)
        && same_texts(&a.extra_args, &b.extra_args) && same_forward_list(&a.forwards, &b.forwards)
}

/// The position of the enabled connection of this name that the supervisor
/// runs: the last one, as later entries replace earlier ones.
pub open spec fn desired_index(cs: Seq<ConnectionConfig>, name: Seq<char>) -> Option<int>
    decreases cs.len(),
{
    if cs.len() == 0 {
        None
    } else if cs.last().enabled && cs.last().name@ == name {
        Some(cs.len() - 1)
    } else {
        desired_index(cs.drop_last(), name)
    }
}

/// A running worker is stopped on a forced restart, when no enabled
/// connection has its name any more, or when that connection changed.
pub open spec fn must_stop(running: ConnectionConfig, cs: Seq<ConnectionConfig>, force: bool) -> bool {
    force || match desired_index(cs, running.name@) {
        None => true,
        Some(j) => !same_connection(cs[j], running),
    }
}

/// A connection is started when it is the one its name stands for and no
/// worker of that name keeps running.
pub open spec fn must_start(
    j: int,
    cs: Seq<ConnectionConfig>,
    running: Seq<ConnectionConfig>,
    force: bool,
) -> bool {
    &&& desired_index(cs, cs[j].name@) == Some(j)
    &&& !exists|k: int|
        0 <= k < running.len() && !must_stop(#[trigger] running[k], cs, force) && running[k].name@
            == cs[j].name@
}

/// A running worker is kept only when no restart is forced and the enabled
/// connection its name stands for agrees with it on every field: name,
/// description, host, user, password, port, enabled flag, ssh program,
/// extra arguments and each forward; and then it is kept.
pub proof fn lemma_kept_worker_agrees_on_every_field(
    running: ConnectionConfig,
    cs: Seq<ConnectionConfig>,
    force: bool,
)
    ensures
        !must_stop(running, cs, force) <==> (!force && match desired_index(cs, running.name@) {
            None => false,
            Some(j) => {
            let d = cs[j];
            &&& d.name@ == running.name@
            &&& opt_view(d.description) == opt_view(running.description)
            &&& opt_view(d.host) == opt_view(running.host)
            &&& opt_view(d.user) == opt_view(running.user)
            &&& opt_view(d.password) == opt_view(running.password)
            &&& d.port == running.port
            &&& d.enabled == running.enabled
            &&& opt_view(d.ssh_path) == opt_view(running.ssh_path)
            &&& strings_view(d.extra_args@) == strings_view(running.extra_args@)
            &&& d.forwards@.len() == running.forwards@.len()
            &&& forall|i: int|
                0 <= i < d.forwards@.len() ==> {
                    &&& (#[trigger] d.forwards@[i]).enabled == running.forwards@[i].enabled
                    &&& d.forwards@[i].mode == running.forwards@[i].mode
                    &&& d.forwards@[i].forward@ == running.forwards@[i].forward@
                    &&& opt_view(d.forwards@[i].description) == opt_view(
                        running.forwards@[i].description,
                    )
                }
            },
        }),
{
}

/// Which workers to stop and which connections to start.
#[derive(Debug)]
pub struct ReconfigurePlan {
    /// One flag per running worker.
    pub stop: Vec<bool>,
    /// One flag per configured connection.
    pub start: Vec<bool>,
}

/// The chosen position lies inside the list and holds that name.
pub proof fn lemma_desired_index_in_range(cs: Seq<ConnectionConfig>, name: Seq<char>)
    ensures
        desired_index(cs, name) matches Some(j) ==> 0 <= j < cs.len() && cs[j].enabled && cs[j].name@
            == name,
    decreases cs.len(),
{
    if cs.len() > 0 {
        lemma_desired_index_in_range(cs.drop_last(), name);
    }
}

fn find_desired(cs: &Vec<ConnectionConfig>, name: &String) -> (r: Option<usize>)
    ensures
        match r {
            Some(j) => desired_index(cs@, name@) == Some(j as int) && j < cs@.len(),
            None => desired_index(cs@, name@) is None,
        },
{
    proof {
        assert(cs@.subrange(0, cs@.len() as int) =~= cs@);
    }
    let mut n = cs.len();
    while n > 0
        invariant
            n <= cs@.len(),
            desired_index(cs@, name@) == desired_index(cs@.subrange(0, n as int), name@),
        decreases n,
    {
        let ghost prefix = cs@.subrange(0, n as int);
        assert(prefix.drop_last() =~= cs@.subrange(0, n - 1));
        if cs[n - 1].enabled && same_text(&cs[n - 1].name, name) {
            return Some(n - 1);
        }
        assert(prefix.last() == cs@[n - 1]);
        n = n - 1;
    }
    None
}

/// Reconciles running workers (by their connection) with a new list of
/// connections: each worker is stopped when [`must_stop`], each connection
/// started when [`must_start`]; the rest keep running.
pub fn plan_reconfigure(running: &Vec<ConnectionConfig>, connections: &Vec<ConnectionConfig>, force: bool) -> (r:
    ReconfigurePlan)
    ensures
        r.stop@.len() == running@.len(),
        forall|k: int| 0 <= k < running@.len() ==> #[trigger] r.stop@[k] == must_stop(running@[k], connections@, force),
        r.start@.len() == connections@.len(),
        forall|j: int|
            0 <= j < connections@.len() ==> #[trigger] r.start@[j] == must_start(j, connections@, running@, force),
{
    proof {
        assert(connections@.subrange(0, connections@.len() as int) =~= connections@);
    }
    let mut stop: Vec<bool> = Vec::new();
    let mut i: usize = 0;
    while i < running.len()
        invariant
            i <= running@.len(),
            connections@.subrange(0, connections@.len() as int) == connections@,
            stop@.len() == i,
            forall|k: int| 0 <= k < i ==> #[trigger] stop@[k] == must_stop(running@[k], connections@, force),
        decreases running@.len() - i,
    {
        let s = if force {
            true
        } else {
            match find_desired(connections, &running[i].name) {
                None => true,
                Some(j) => !connections_equal(&connections[j], &running[i]),
            }
        };
        stop.push(s);
        i = i + 1;
    }
    let mut start: Vec<bool> = Vec::new();
    let mut j: usize = 0;
    while j < connections.len()
        invariant
            j <= connections@.len(),
            stop@.len() == running@.len(),
            forall|k: int| 0 <= k < running@.len() ==> #[trigger] stop@[k] == must_stop(running@[k], connections@, force),
            start@.len() == j,
            forall|m: int|
                0 <= m < j ==> #[trigger] start@[m] == must_start(m, connections@, running@, force),
        decreases connections@.len() - j,
    {
        let wanted = match find_desired(connections, &connections[j].name) {
            Some(d) => d == j,
            None => false,
        };
        let mut kept = false;
        let mut k: usize = 0;
        while k < running.len()
            invariant
                k <= running@.len(),
                j < connections@.len(),
                stop@.len() == running@.len(),
                forall|q: int| 0 <= q < running@.len() ==> #[trigger] stop@[q] == must_stop(running@[q], connections@, force),
                kept == exists|q: int|
                    0 <= q < k && !must_stop(#[trigger] running@[q], connections@, force) && running@[q].name@
                        == connections@[j as int].name@,
            decreases running@.len() - k,
        {
            if !stop[k] && same_text(&running[k].name, &connections[j].name) {
                kept = true;
            }
            k = k + 1;
        }
        start.push(wanted && !kept);
        j = j + 1;
    }
    ReconfigurePlan { stop, start }
}

/// The enabled connection of the worker's name is the one it runs.
pub open spec fn unchanged_worker(running: ConnectionConfig, cs: Seq<ConnectionConfig>) -> bool {
    match desired_index(cs, running.name@) {
        Some(j) => same_connection(cs[j], running),
        None => false,
    }
}

/// Configuration changes restart only changed workers, and a change of the
/// log settings restarts all: a worker keeps running exactly when no
/// restart is forced and the enabled connection of its name is unchanged;
/// afterwards every enabled connection that its name stands for has a
/// worker, kept or started, and never two.
pub proof fn lemma_reconfigure_restarts_only_changed(
    running: Seq<ConnectionConfig>,
    cs: Seq<ConnectionConfig>,
    force: bool,
)
    ensures
        forall|k: int|
            0 <= k < running.len() ==> (!must_stop(#[trigger] running[k], cs, force) <==> (!force
                && unchanged_worker(running[k], cs))),
        forall|j: int|
            0 <= j < cs.len() && desired_index(cs, cs[j].name@) == Some(j) ==> (#[trigger] must_start(
                j,
                cs,
                running,
                force,
            ) <==> !exists|k: int|
                0 <= k < running.len() && !must_stop(#[trigger] running[k], cs, force)
                    && running[k].name@ == cs[j].name@),
        forall|j: int| 0 <= j < cs.len() && #[trigger] must_start(j, cs, running, force) ==> cs[j].enabled,
{
    assert forall|j: int| 0 <= j < cs.len() && #[trigger] must_start(j, cs, running, force) implies cs[j].enabled by {
        lemma_desired_index_in_range(cs, cs[j].name@);
    }
}

/// What the configuration watcher remembers between polls: the file's last
/// contents and the last reload error reported.
#[derive(Debug)]
pub struct ReloadWatch {
    snapshot: Option<Vec<u8>>,
    last_error: Option<String>,
}

fn same_vec(x: &Vec<u8>, y: &Vec<u8>) -> (r: bool)
    ensures
        r == (x@ == y@),
{
    if x.len() != y.len() {
        assert(x@.len() != y@.len());
        return false;
    }
    let mut i: usize = 0;
    while i < x.len()
        invariant
            i <= x@.len(),
            x@.len() == y@.len(),
            forall|k: int| 0 <= k < i ==> x@[k] == y@[k],
        decreases x@.len() - i,
    {
        if x[i] != y[i] {
            assert(x@[i as int] != y@[i as int]);
            return false;
        }
        i = i + 1;
    }
    assert(x@ =~= y@);
    true
}

fn same_bytes(a: &Option<Vec<u8>>, b: &Option<Vec<u8>>) -> (r: bool)
    ensures
        r == (snapshot_view(*a) == snapshot_view(*b)),
{
    match (a, b) {
        (Some(x), Some(y)) => same_vec(x, y),
        (None, None) => true,
        _ => false,
    }
}

/// The contents as the watcher compares them.
pub open spec fn snapshot_view(s: Option<Vec<u8>>) -> Option<Seq<u8>> {
    match s {
        Some(v) => Some(v@),
        None => None,
    }
}

impl ReloadWatch {
    pub closed spec fn snapshot_spec(&self) -> Option<Seq<u8>> {
        snapshot_view(self.snapshot)
    }

    pub closed spec fn last_error_spec(&self) -> Option<Seq<char>> {
        opt_view(self.last_error)
    }

    /// Watching from the contents read at start, with no error reported.
    pub fn new(snapshot: Option<Vec<u8>>) -> (r: Self)
        ensures
            r.snapshot_spec() == snapshot_view(snapshot),
            r.last_error_spec() is None,
    {
        ReloadWatch { snapshot, last_error: None }
    }

    /// A poll: whether the contents changed (then they are remembered and
    /// the configuration must be reloaded).
    pub fn observe(&mut self, current: Option<Vec<u8>>) -> (reload: bool)
        ensures
            reload == (snapshot_view(current) != old(self).snapshot_spec()),
            final(self).snapshot_spec() == snapshot_view(current),
            final(self).last_error_spec() == old(self).last_error_spec(),
    {
        if same_bytes(&current, &self.snapshot) {
            return false;
        }
        self.snapshot = current;
        true
    }

    /// The new configuration could not be loaded: the line to log, unless
    /// this error was the last one reported.
    pub fn load_failed(&mut self, message: String) -> (r: Option<String>)
        ensures
            old(self).last_error_spec() == Some(message@) ==> r is None,
            old(self).last_error_spec() != Some(message@) ==> opt_view(r) == Some(
                reload_error_text(message@),
            ),
            final(self).last_error_spec() == Some(message@),
            final(self).snapshot_spec() == old(self).snapshot_spec(),
    {
        reload_error_line(&mut self.last_error, message)
    }

    /// The new log settings could not be applied.
    pub fn logger_failed(&mut self, error: &str) -> (r: Option<String>)
        ensures
            ({
                let message = "cannot apply log configuration: "@ + error@;
                &&& old(self).last_error_spec() == Some(message) ==> r is None
                &&& old(self).last_error_spec() != Some(message) ==> opt_view(r) == Some(
                    reload_error_text(message),
                )
                &&& final(self).last_error_spec() == Some(message)
            }),
            final(self).snapshot_spec() == old(self).snapshot_spec(),
    {
        let mut message = owned("cannot apply log configuration: ");
        push_str(&mut message, error);
        reload_error_line(&mut self.last_error, message)
    }

    /// The outcome of reconciling the workers: success clears the last
    /// error; a failure forgets the contents, so the next poll retries, and
    /// is reported unless it was the last error reported.
    pub fn applied(&mut self, result: Result<(), String>) -> (r: Option<String>)
        ensures
            match result {
                Ok(()) => {
                    &&& r is None
                    &&& final(self).last_error_spec() is None
                    &&& final(self).snapshot_spec() == old(self).snapshot_spec()
                },
                Err(error) => {
                    let message = "cannot apply all connection changes: "@ + error@;
                    &&& final(self).snapshot_spec() is None
                    &&& old(self).last_error_spec() == Some(message) ==> r is None
                    &&& old(self).last_error_spec() != Some(message) ==> opt_view(r) == Some(
                        reload_error_text(message),
                    )
                    &&& final(self).last_error_spec() == Some(message)
                },
            },
    {
        match result {
            Ok(()) => {
                self.last_error = None;
                None
            },
            Err(error) => {
                self.snapshot = None;
                let mut message = owned("cannot apply all connection changes: ");
                push_str(&mut message, error.as_str());
                reload_error_line(&mut self.last_error, message)
            },
        }
    }
}

// ───────────────────────── stderr text ─────────────────────────

/// A record without its line ending: one trailing `\n`, then one `\r`.
pub open spec fn without_line_ending(bytes: Seq<u8>) -> Seq<u8> {
    let a = if bytes.len() > 0 && bytes.last() == 10u8 {
        bytes.drop_last()
    } else {
        bytes
    };
    if a.len() > 0 && a.last() == 13u8 {
        a.drop_last()
    } else {
        a
    }
}

pub fn strip_line_ending(bytes: &[u8]) -> (r: &[u8])
    ensures
        r@ == without_line_ending(bytes@),
{
    let mut n = bytes.len();
    if n > 0 && bytes[n - 1] == 10u8 {
        n = n - 1;
    }
    if n > 0 && bytes[n - 1] == 13u8 {
        n = n - 1;
    }
    let r = &bytes[0..n];
    assert(r@ =~= without_line_ending(bytes@));
    r
}

/// The text that `bytes` encode in UTF-8, if they are valid UTF-8.
pub open spec fn utf8_text(bytes: Seq<u8>) -> Option<Seq<char>> {
    if valid_utf8(bytes) {
        Some(decode_utf8(bytes))
    } else {
        None
    }
}

/// The text of `bytes` read as UTF-8 with each invalid sequence replaced by
/// U+FFFD.
pub uninterp spec fn utf8_lossy_text(bytes: Seq<u8>) -> Seq<char>;

/// `std::str::from_utf8`, owned: succeeds exactly on valid UTF-8 and then
/// holds the characters that the bytes encode.
#[verifier::external_body]
pub(crate) fn utf8_string(bytes: &[u8]) -> (r: Option<String>)
    ensures
        opt_view(r) == utf8_text(bytes@),
{
    match std::str::from_utf8(bytes) {
        Ok(text) => Some(text.to_owned()),
        Err(_) => None,
    }
}

/// `String::from_utf8_lossy`, owned: the text of the bytes with each invalid
/// sequence replaced by U+FFFD, which is the plain decoding when the bytes
/// are valid.
#[verifier::external_body]
fn utf8_string_lossy(bytes: &[u8]) -> (r: String)
    ensures
        r@ == utf8_lossy_text(bytes@),
        valid_utf8(bytes@) ==> r@ == decode_utf8(bytes@),
{
    String::from_utf8_lossy(bytes).into_owned()
}

/// One stderr record of ssh as text: its line ending removed, read as
/// UTF-8, with invalid sequences replaced.
pub fn decode_ssh_stderr(bytes: &[u8]) -> (r: String)
    ensures
        r@ == (match utf8_text(without_line_ending(bytes@)) {
            Some(t) => t,
            None => utf8_lossy_text(without_line_ending(bytes@)),
        }),
{
    let b = strip_line_ending(bytes);
    match utf8_string(b) {
        Some(t) => t,
        None => utf8_string_lossy(b),
    }
}

/// The encoding label for a Windows ANSI code page, used for local ssh
/// messages that are not UTF-8.
pub open spec fn ansi_label_of(code_page: u32) -> Seq<char> {
    if code_page == 932 {
        "Shift_JIS"@
    } else if code_page == 936 {
        "GBK"@
    } else if code_page == 949 {
        "EUC-KR"@
    } else if code_page == 950 {
        "Big5"@
    } else if 1250 <= code_page <= 1258 {
        "windows-"@ + crate::text::dec(code_page as nat)
    } else {
        "windows-1252"@
    }
}

pub fn ansi_label(code_page: u32) -> (r: String)
    ensures
        r@ == ansi_label_of(code_page),
{
    if code_page == 932 {
        owned("Shift_JIS")
    } else if code_page == 936 {
        owned("GBK")
    } else if code_page == 949 {
        owned("EUC-KR")
    } else if code_page == 950 {
        owned("Big5")
    } else if 1250 <= code_page && code_page <= 1258 {
        let mut label = owned("windows-");
        let digits = crate::text::dec_string(code_page as u64);
        push_str(&mut label, digits.as_str());
        label
    } else {
        owned("windows-1252")
    }
}

} // verus!
