//! The tunnel configuration: its data, its defaults and its validity rules.
//!
//! Paths are held as plain strings; turning them into file-system paths is the
//! business of the program around the library.

use vstd::prelude::*;

use crate::text::{
    has_char, has_char_in, is_blank, opt_view, owned, parse_unsigned, parse_unsigned_in,
    push_chars, push_one, push_str, str_chars, string_from, strings_view, trim, trim_slice,
};

verus! {

/// Which side of an `ssh` tunnel listens: `-L`, `-R` or `-D`.
#[derive(Clone, Copy, Debug, PartialEq, Eq, Structural)]
pub enum ForwardMode {
    Local,
    Remote,
    /// `ssh -D`: a local SOCKS proxy listening on `[bind:]port`.
    Dynamic,
}

/// One forward of a connection.
#[derive(Debug, PartialEq, Eq)]
pub struct ForwardConfig {
    /// Whether the forward is passed to ssh.
    pub enabled: bool,
    pub mode: ForwardMode,
    /// `[bind:]listen_port:target_host:target_port`, or `[bind:]port` for `-D`.
    pub forward: String,
    /// Optional note shown by the GUI.
    pub description: Option<String>,
}

/// SSH keepalive and connect timeout, shared by every connection.
#[derive(Debug, PartialEq, Eq)]
pub struct KeepaliveConfig {
    pub interval: u64,
    pub count_max: u32,
    pub connect_timeout: u64,
}

/// Reconnect backoff, shared by every connection.
#[derive(Debug, PartialEq, Eq)]
pub struct RetryConfig {
    pub initial_seconds: u64,
    pub maximum_seconds: u64,
    pub stable_seconds: u64,
}

/// Optional log file.
#[derive(Debug, PartialEq, Eq)]
pub struct LogConfig {
    pub file: Option<String>,
}

/// One OpenSSH process connected to one host.
#[derive(Debug, PartialEq, Eq)]
pub struct ConnectionConfig {
    /// Unique connection identifier.
    pub name: String,
    /// Optional note shown by the GUI.
    pub description: Option<String>,
    /// SSH destination (`user@host` or a Host alias); `name` when absent.
    pub host: Option<String>,
    /// Optional SSH user, prefixed to a host that has no `user@`.
    pub user: Option<String>,
    /// Optional password for `sshpass -e`; its presence drops `BatchMode=yes`.
    pub password: Option<String>,
    /// Optional SSH server port.
    pub port: Option<u16>,
    pub enabled: bool,
    /// Optional explicit path to ssh.
    pub ssh_path: Option<String>,
    pub extra_args: Vec<String>,
    pub forwards: Vec<ForwardConfig>,
}

/// The whole configuration file.
#[derive(Debug, PartialEq, Eq)]
pub struct Config {
    pub log: LogConfig,
    pub keepalive: KeepaliveConfig,
    pub retry: RetryConfig,
    pub connections: Vec<ConnectionConfig>,
}

// ───────────────────────── copies ─────────────────────────

impl Clone for ForwardConfig {
    fn clone(&self) -> (r: Self)
        ensures
            r == *self,
    {
        ForwardConfig {
            enabled: self.enabled,
            mode: self.mode,
            forward: self.forward.clone(),
            description: self.description.clone(),
        }
    }
}

impl Clone for KeepaliveConfig {
    fn clone(&self) -> (r: Self)
        ensures
            r == *self,
    {
        KeepaliveConfig {
            interval: self.interval,
            count_max: self.count_max,
            connect_timeout: self.connect_timeout,
        }
    }
}

impl Clone for RetryConfig {
    fn clone(&self) -> (r: Self)
        ensures
            r == *self,
    {
        RetryConfig {
            initial_seconds: self.initial_seconds,
            maximum_seconds: self.maximum_seconds,
            stable_seconds: self.stable_seconds,
        }
    }
}

impl Clone for LogConfig {
    fn clone(&self) -> (r: Self)
        ensures
            r == *self,
    {
        LogConfig { file: self.file.clone() }
    }
}

/// A copy of a list of forwards.
pub fn clone_forwards(v: &Vec<ForwardConfig>) -> (r: Vec<ForwardConfig>)
    ensures
        r@ == v@,
{
    let mut r: Vec<ForwardConfig> = Vec::new();
    let mut i: usize = 0;
    while i < v.len()
        invariant
            i <= v@.len(),
            r@ == v@.subrange(0, i as int),
        decreases v@.len() - i,
    {
        r.push(v[i].clone());
        i = i + 1;
    }
    r
}

/// Two forwards that agree on every field's value.
pub open spec fn same_forward(a: ForwardConfig, b: ForwardConfig) -> bool {
    &&& a.enabled == b.enabled
    &&& a.mode == b.mode
    &&& a.forward@ == b.forward@
    &&& opt_view(a.description) == opt_view(b.description)
}

/// Two lists of forwards that agree position by position.
pub open spec fn same_forwards(a: Seq<ForwardConfig>, b: Seq<ForwardConfig>) -> bool {
    &&& a.len() == b.len()
    &&& forall|k: int| 0 <= k < a.len() ==> same_forward(#[trigger] a[k], b[k])
}

/// Two connections that agree on every field's value.
pub open spec fn same_connection(a: ConnectionConfig, b: ConnectionConfig) -> bool {
    &&& a.name@ == b.name@
    &&& opt_view(a.description) == opt_view(b.description)
    &&& opt_view(a.host) == opt_view(b.host)
    &&& opt_view(a.user) == opt_view(b.user)
    &&& opt_view(a.password) == opt_view(b.password)
    &&& a.port == b.port
    &&& a.enabled == b.enabled
    &&& opt_view(a.ssh_path) == opt_view(b.ssh_path)
    &&& strings_view(a.extra_args@) == strings_view(b.extra_args@)
    &&& same_forwards(a.forwards@, b.forwards@)
}

impl Clone for ConnectionConfig {
    fn clone(&self) -> (r: Self)
        ensures
            same_connection(r, *self),
    {
        let extra = self.extra_args.clone();
        assert(extra@ =~= self.extra_args@);
        ConnectionConfig {
            name: self.name.clone(),
            description: self.description.clone(),
            host: self.host.clone(),
            user: self.user.clone(),
            password: self.password.clone(),
            port: self.port,
            enabled: self.enabled,
            ssh_path: self.ssh_path.clone(),
            extra_args: extra,
            forwards: clone_forwards(&self.forwards),
        }
    }
}

/// A copy of a list of connections.
pub fn clone_connections(v: &Vec<ConnectionConfig>) -> (r: Vec<ConnectionConfig>)
    ensures
        r@.len() == v@.len(),
        forall|k: int| 0 <= k < v@.len() ==> same_connection(#[trigger] r@[k], v@[k]),
{
    let mut r: Vec<ConnectionConfig> = Vec::new();
    let mut i: usize = 0;
    while i < v.len()
        invariant
            i <= v@.len(),
            r@.len() == i,
            forall|k: int| 0 <= k < i ==> same_connection(#[trigger] r@[k], v@[k]),
        decreases v@.len() - i,
    {
        r.push(v[i].clone());
        i = i + 1;
    }
    r
}

impl Clone for Config {
    fn clone(&self) -> (r: Self)
        ensures
            r.log == self.log,
            r.keepalive == self.keepalive,
            r.retry == self.retry,
            r.connections@.len() == self.connections@.len(),
            forall|k: int|
                0 <= k < self.connections@.len() ==> same_connection(
                    #[trigger] r.connections@[k],
                    self.connections@[k],
                ),
    {
        Config {
            log: self.log.clone(),
            keepalive: self.keepalive.clone(),
            retry: self.retry.clone(),
            connections: clone_connections(&self.connections),
        }
    }
}

// ───────────────────────── defaults ─────────────────────────

/// A forward with no `enabled` key is enabled.
pub fn enabled_by_default() -> (r: bool)
    ensures
        r,
{
    true
}

pub fn default_keepalive_interval() -> (r: u64)
    ensures
        r == 30,
{
    30
}

pub fn default_keepalive_count() -> (r: u32)
    ensures
        r == 3,
{
    3
}

pub fn default_connect_timeout() -> (r: u64)
    ensures
        r == 15,
{
    15
}

pub fn default_retry_initial() -> (r: u64)
    ensures
        r == 1,
{
    1
}

pub fn default_retry_maximum() -> (r: u64)
    ensures
        r == 60,
{
    60
}

pub fn default_retry_stable() -> (r: u64)
    ensures
        r == 60,
{
    60
}

impl Default for KeepaliveConfig {
    fn default() -> (r: Self)
        ensures
            r.interval == 30,
            r.count_max == 3,
            r.connect_timeout == 15,
    {
        KeepaliveConfig {
            interval: default_keepalive_interval(),
            count_max: default_keepalive_count(),
            connect_timeout: default_connect_timeout(),
        }
    }
}

impl Default for RetryConfig {
    fn default() -> (r: Self)
        ensures
            r.initial_seconds == 1,
            r.maximum_seconds == 60,
            r.stable_seconds == 60,
    {
        RetryConfig {
            initial_seconds: default_retry_initial(),
            maximum_seconds: default_retry_maximum(),
            stable_seconds: default_retry_stable(),
        }
    }
}

impl Default for LogConfig {
    fn default() -> (r: Self)
        ensures
            r.file is None,
    {
        LogConfig { file: None }
    }
}

impl Default for Config {
    fn default() -> (r: Self)
        ensures
            r.log.file is None,
            r.keepalive.interval == 30,
            r.keepalive.count_max == 3,
            r.keepalive.connect_timeout == 15,
            r.retry.initial_seconds == 1,
            r.retry.maximum_seconds == 60,
            r.retry.stable_seconds == 60,
            r.connections@.len() == 0,
    {
        Config {
            log: LogConfig::default(),
            keepalive: KeepaliveConfig::default(),
            retry: RetryConfig::default(),
            connections: Vec::new(),
        }
    }
}

// ───────────────────────── forward specs ─────────────────────────

/// State while splitting a forward spec: finished parts, the current part,
/// and whether the scan is inside `[...]`.
pub open spec fn split_step(
    st: (Seq<Seq<char>>, Seq<char>, bool),
    c: char,
) -> (Seq<Seq<char>>, Seq<char>, bool) {
    if c == '[' {
        (st.0, st.1.push(c), true)
    } else if c == ']' {
        (st.0, st.1.push(c), false)
    } else if c == ':' && !st.2 {
        (st.0.push(st.1), Seq::<char>::empty(), st.2)
    } else {
        (st.0, st.1.push(c), st.2)
    }
}

pub open spec fn split_state(s: Seq<char>, n: int) -> (Seq<Seq<char>>, Seq<char>, bool)
    decreases n,
{
    if n <= 0 {
        (Seq::<Seq<char>>::empty(), Seq::<char>::empty(), false)
    } else {
        split_step(split_state(s, n - 1), s[n - 1])
    }
}

/// A forward spec split on `:` outside `[...]`, brackets kept: `[::1]:1080`
/// gives `["[::1]", "1080"]`.
pub open spec fn split_forward(s: Seq<char>) -> Seq<Seq<char>> {
    let st = split_state(s, s.len() as int);
    st.0.push(st.1)
}

/// Splits a forward spec on `:` while respecting IPv6 brackets.
pub fn split_forward_spec(spec: &str) -> (r: Vec<String>)
    ensures
        strings_view(r@) == split_forward(spec@),
{
    let cs = str_chars(spec);
    let mut parts: Vec<String> = Vec::new();
    let mut current = String::new();
    let mut in_brackets = false;
    let mut i: usize = 0;
    while i < cs.len()
        invariant
            i <= cs@.len(),
            cs@ == spec@,
            (strings_view(parts@), current@, in_brackets) == split_state(spec@, i as int),
        decreases cs@.len() - i,
    {
        let c = cs[i];
        if c == '[' {
            push_one(&mut current, c);
            in_brackets = true;
        } else if c == ']' {
            push_one(&mut current, c);
            in_brackets = false;
        } else if c == ':' && !in_brackets {
            let done = current;
            parts.push(done);
            current = String::new();
            proof {
                assert(strings_view(parts@) =~= strings_view(old_parts_of(parts@)).push(done@));
            }
        } else {
            push_one(&mut current, c);
        }
        i = i + 1;
    }
    let last = current;
    parts.push(last);
    proof {
        assert(strings_view(parts@) =~= strings_view(old_parts_of(parts@)).push(last@));
    }
    parts
}

/// Parts joined with `:` between them.
pub open spec fn join_colon(p: Seq<Seq<char>>) -> Seq<char>
    decreases p.len(),
{
    if p.len() == 0 {
        Seq::<char>::empty()
    } else if p.len() == 1 {
        p[0]
    } else {
        join_colon(p.drop_last()) + ":"@ + p.last()
    }
}

/// Whether the first `n` characters of `s` leave the scan inside `[...]`:
/// the last bracket among them is `[`.
pub open spec fn in_brackets_after(s: Seq<char>, n: int) -> bool
    decreases n,
{
    if n <= 0 {
        false
    } else if s[n - 1] == '[' {
        true
    } else if s[n - 1] == ']' {
        false
    } else {
        in_brackets_after(s, n - 1)
    }
}

/// The number of `:` outside `[...]` among the first `n` characters of `s`.
pub open spec fn separator_count(s: Seq<char>, n: int) -> nat
    decreases n,
{
    if n <= 0 {
        0
    } else {
        separator_count(s, n - 1) + if s[n - 1] == ':' && !in_brackets_after(s, n - 1) {
            1nat
        } else {
            0nat
        }
    }
}

proof fn lemma_split_state_rejoins(s: Seq<char>, n: int)
    requires
        0 <= n <= s.len(),
    ensures
        split_state(s, n).2 == in_brackets_after(s, n),
        split_state(s, n).0.len() == separator_count(s, n),
        join_colon(split_state(s, n).0.push(split_state(s, n).1)) == s.subrange(0, n),
    decreases n,
{
    if n > 0 {
        lemma_split_state_rejoins(s, n - 1);
        let prev = split_state(s, n - 1);
        let c = s[n - 1];
        let before = prev.0.push(prev.1);
        assert(s.subrange(0, n) =~= s.subrange(0, n - 1).push(c));
        if c == ':' && !prev.2 {
            let parts = prev.0.push(prev.1).push(Seq::<char>::empty());
            assert(parts.drop_last() =~= before);
            assert(join_colon(parts) == join_colon(before) + ":"@ + Seq::<char>::empty());
            reveal_strlit(":");
            assert(join_colon(parts) =~= s.subrange(0, n));
        } else {
            let parts = prev.0.push(prev.1.push(c));
            if prev.0.len() == 0 {
                assert(join_colon(parts) == prev.1.push(c));
                assert(join_colon(before) == prev.1);
            } else {
                assert(parts.drop_last() =~= prev.0);
                assert(before.drop_last() =~= prev.0);
                assert(join_colon(parts) == join_colon(prev.0) + ":"@ + prev.1.push(c));
                assert(join_colon(before) == join_colon(prev.0) + ":"@ + prev.1);
            }
            assert(join_colon(parts) =~= s.subrange(0, n));
        }
    }
}

/// Joining the parts of a split forward spec with `:` gives back the spec,
/// and there is one part more than there are `:` outside `[...]`.
pub proof fn lemma_split_forward_rejoins(s: Seq<char>)
    ensures
        join_colon(split_forward(s)) == s,
        split_forward(s).len() == separator_count(s, s.len() as int) + 1,
{
    lemma_split_state_rejoins(s, s.len() as int);
    assert(s.subrange(0, s.len() as int) =~= s);
}

spec fn old_parts_of(v: Seq<String>) -> Seq<String> {
    v.drop_last()
}

/// `text.parse::<u16>().is_ok()`.
pub open spec fn valid_port(s: Seq<char>) -> bool {
    parse_unsigned(s, 65535) is Some
}

/// `-L` / `-R` spec: `[bind_host:]listen_port:target_host:target_port`.
pub open spec fn static_spec_ok(spec: Seq<char>) -> bool {
    let p = split_forward(spec);
    ||| p.len() == 3 && valid_port(p[0]) && valid_port(p[2])
    ||| p.len() == 4 && valid_port(p[1]) && valid_port(p[3])
}

/// The port of a `-D` spec: a number from 1 to 65535.
pub open spec fn valid_dynamic_port(s: Seq<char>) -> bool {
    match parse_unsigned(s, 65535) {
        Some(n) => n >= 1,
        None => false,
    }
}

/// `-D` spec: `[bind_host:]port`, the port from 1 to 65535.
pub open spec fn dynamic_spec_ok(spec: Seq<char>) -> bool {
    let p = split_forward(spec);
    ||| p.len() == 1 && valid_dynamic_port(p[0])
    ||| p.len() == 2 && valid_dynamic_port(p[1])
}

/// A `-L` / `-R` spec is accepted exactly when it has three or four parts
/// and both its listen port (the part before the target host) and its
/// target port (the last part) read as numbers up to 65535.
pub proof fn lemma_static_spec_needs_both_ports(spec: Seq<char>)
    ensures
        static_spec_ok(spec) <==> ({
            let p = split_forward(spec);
            &&& p.len() == 3 || p.len() == 4
            &&& parse_unsigned(p[p.len() - 3], 65535) is Some
            &&& parse_unsigned(p[p.len() - 1], 65535) is Some
        }),
{
}

pub fn is_valid_port(text: &str) -> (r: bool)
    ensures
        r == valid_port(text@),
{
    let cs = str_chars(text);
    parse_unsigned_in(cs.as_slice(), 65535).is_some()
}

/// Whether `text` is the port of a `-D` spec: 1 to 65535.
pub fn is_valid_dynamic_port(text: &str) -> (r: bool)
    ensures
        r == valid_dynamic_port(text@),
{
    let cs = str_chars(text);
    match parse_unsigned_in(cs.as_slice(), 65535) {
        Some(n) => n >= 1,
        None => false,
    }
}

pub fn is_valid_static_forward_spec(spec: &str) -> (r: bool)
    ensures
        r == static_spec_ok(spec@),
{
    let parts = split_forward_spec(spec);
    proof {
        assert(strings_view(parts@).len() == parts@.len());
    }
    if parts.len() == 3 {
        is_valid_port(parts[0].as_str()) && is_valid_port(parts[2].as_str())
    } else if parts.len() == 4 {
        is_valid_port(parts[1].as_str()) && is_valid_port(parts[3].as_str())
    } else {
        false
    }
}

pub fn is_valid_dynamic_forward_spec(spec: &str) -> (r: bool)
    ensures
        r == dynamic_spec_ok(spec@),
{
    let parts = split_forward_spec(spec);
    proof {
        assert(strings_view(parts@).len() == parts@.len());
    }
    if parts.len() == 1 {
        is_valid_dynamic_port(parts[0].as_str())
    } else if parts.len() == 2 {
        is_valid_dynamic_port(parts[1].as_str())
    } else {
        false
    }
}

// ───────────────────────── connection helpers ─────────────────────────

/// `host`, or `name` when there is no host.
pub open spec fn base_destination(c: ConnectionConfig) -> Seq<char> {
    match c.host {
        Some(h) => h@,
        None => c.name@,
    }
}

/// The ssh destination: `user@host` when a non-blank user is set and the host
/// holds no `@`, otherwise the host (or the name).
pub open spec fn destination_of(c: ConnectionConfig) -> Seq<char> {
    let base = base_destination(c);
    match c.user {
        Some(u) => if trim(u@).len() > 0 && !has_char(base, '@') {
            u@ + seq!['@'] + base
        } else {
            base
        },
        None => base,
    }
}

/// The user goes in front of the host, or of the connection's name when no
/// host is set: `user@base` whenever the user is not blank and the base
/// holds no `@`; otherwise the destination is the base itself.
pub proof fn lemma_destination_prefixes_user(c: ConnectionConfig)
    ensures
        ({
            let base = match c.host {
                Some(h) => h@,
                None => c.name@,
            };
            &&& (c.user matches Some(u) && trim(u@).len() > 0 && !has_char(base, '@'))
                ==> destination_of(c) == c.user.unwrap()@ + "@"@ + base
            &&& !(c.user matches Some(u) && trim(u@).len() > 0 && !has_char(base, '@'))
                ==> destination_of(c) == base
        }),
{
    reveal_strlit("@");
}

/// A non-empty password is configured.
pub open spec fn has_password_of(c: ConnectionConfig) -> bool {
    c.password matches Some(p) && p@.len() > 0
}

impl ConnectionConfig {
    /// Effective SSH destination passed on the ssh command line.
    pub fn destination(&self) -> (r: String)
        ensures
            r@ == destination_of(*self),
    {
        let base: &str = match &self.host {
            Some(h) => h.as_str(),
            None => self.name.as_str(),
        };
        let base_chars = str_chars(base);
        match &self.user {
            Some(user) => {
                let user_chars = str_chars(user.as_str());
                if !is_blank(user_chars.as_slice()) && !has_char_in(base_chars.as_slice(), '@') {
                    let mut r = user.clone();
                    push_one(&mut r, '@');
                    push_chars(&mut r, base_chars.as_slice());
                    assert(r@ =~= user@ + seq!['@'] + base@);
                    r
                } else {
                    owned(base)
                }
            },
            None => owned(base),
        }
    }

    /// True when a non-empty password is configured.
    pub fn has_password(&self) -> (r: bool)
        ensures
            r == has_password_of(*self),
    {
        match &self.password {
            Some(p) => !p.as_str().is_empty(),
            None => false,
        }
    }
}

// ───────────────────────── validation ─────────────────────────

/// Why a configuration is rejected.
#[derive(Debug, PartialEq, Eq)]
pub enum ConfigError {
    KeepaliveNotPositive,
    RetryInvalid,
    NoConnections,
    EmptyName,
    EmptyHost(String),
    PortZero(String),
    NoForwards(String),
    EmptyForward(String),
    InvalidStaticForward { connection: String, forward: String, mode: ForwardMode },
    InvalidDynamicForward { connection: String, forward: String },
    DuplicateName(String),
}

/// The reason for a rejection, over plain values.
pub enum ConfigIssue {
    KeepaliveNotPositive,
    RetryInvalid,
    NoConnections,
    EmptyName,
    EmptyHost(Seq<char>),
    PortZero(Seq<char>),
    NoForwards(Seq<char>),
    EmptyForward(Seq<char>),
    InvalidStaticForward { connection: Seq<char>, forward: Seq<char>, mode: ForwardMode },
    InvalidDynamicForward { connection: Seq<char>, forward: Seq<char> },
    DuplicateName(Seq<char>),
}

impl View for ConfigError {
    type V = ConfigIssue;

    open spec fn view(&self) -> ConfigIssue {
        match self {
            ConfigError::KeepaliveNotPositive => ConfigIssue::KeepaliveNotPositive,
            ConfigError::RetryInvalid => ConfigIssue::RetryInvalid,
            ConfigError::NoConnections => ConfigIssue::NoConnections,
            ConfigError::EmptyName => ConfigIssue::EmptyName,
            ConfigError::EmptyHost(n) => ConfigIssue::EmptyHost(n@),
            ConfigError::PortZero(n) => ConfigIssue::PortZero(n@),
            ConfigError::NoForwards(n) => ConfigIssue::NoForwards(n@),
            ConfigError::EmptyForward(n) => ConfigIssue::EmptyForward(n@),
            ConfigError::InvalidStaticForward { connection, forward, mode } => {
                ConfigIssue::InvalidStaticForward {
                    connection: connection@,
                    forward: forward@,
                    mode: *mode,
                }
            },
            ConfigError::InvalidDynamicForward { connection, forward } => {
                ConfigIssue::InvalidDynamicForward { connection: connection@, forward: forward@ }
            },
            ConfigError::DuplicateName(n) => ConfigIssue::DuplicateName(n@),
        }
    }
}

pub open spec fn keepalive_ok(k: KeepaliveConfig) -> bool {
    k.interval != 0 && k.count_max != 0 && k.connect_timeout != 0
}

pub open spec fn retry_ok(r: RetryConfig) -> bool {
    r.initial_seconds != 0 && r.maximum_seconds >= r.initial_seconds && r.stable_seconds != 0
}

/// The problem with one forward of connection `name`, if any.
pub open spec fn forward_issue(name: Seq<char>, f: ForwardConfig) -> Option<ConfigIssue> {
    let spec = trim(f.forward@);
    if spec.len() == 0 {
        Some(ConfigIssue::EmptyForward(name))
    } else {
        match f.mode {
            ForwardMode::Dynamic => if dynamic_spec_ok(spec) {
                None
            } else {
                Some(ConfigIssue::InvalidDynamicForward { connection: name, forward: f.forward@ })
            },
            _ => if static_spec_ok(spec) {
                None
            } else {
                Some(
                    ConfigIssue::InvalidStaticForward {
                        connection: name,
                        forward: f.forward@,
                        mode: f.mode,
                    },
                )
            },
        }
    }
}

/// The first problem among the first `n` forwards.
pub open spec fn forwards_issue(name: Seq<char>, fs: Seq<ForwardConfig>, n: int) -> Option<
    ConfigIssue,
>
    decreases n,
{
    if n <= 0 {
        None
    } else {
        match forwards_issue(name, fs, n - 1) {
            Some(x) => Some(x),
            None => forward_issue(name, fs[n - 1]),
        }
    }
}

/// Some connection before position `i` carries the same name.
pub open spec fn name_taken_before(cs: Seq<ConnectionConfig>, i: int) -> bool {
    exists|j: int| 0 <= j < i && cs[j].name@ == cs[i].name@
}

/// The problem with connection `i`, checked in the original's order.
pub open spec fn connection_issue(cs: Seq<ConnectionConfig>, i: int) -> Option<ConfigIssue> {
    let c = cs[i];
    if trim(c.name@).len() == 0 {
        Some(ConfigIssue::EmptyName)
    } else if trim(destination_of(c)).len() == 0 {
        Some(ConfigIssue::EmptyHost(c.name@))
    } else if c.port == Some(0u16) {
        Some(ConfigIssue::PortZero(c.name@))
    } else if c.forwards@.len() == 0 {
        Some(ConfigIssue::NoForwards(c.name@))
    } else if forwards_issue(c.name@, c.forwards@, c.forwards@.len() as int) is Some {
        forwards_issue(c.name@, c.forwards@, c.forwards@.len() as int)
    } else if name_taken_before(cs, i) {
        Some(ConfigIssue::DuplicateName(c.name@))
    } else {
        None
    }
}

/// The first problem among the first `n` connections.
pub open spec fn connections_issue(cs: Seq<ConnectionConfig>, n: int) -> Option<ConfigIssue>
    decreases n,
{
    if n <= 0 {
        None
    } else {
        match connections_issue(cs, n - 1) {
            Some(x) => Some(x),
            None => connection_issue(cs, n - 1),
        }
    }
}

/// Why `c` is rejected, or `None` for a valid configuration.
pub open spec fn config_issue(c: Config) -> Option<ConfigIssue> {
    if !keepalive_ok(c.keepalive) {
        Some(ConfigIssue::KeepaliveNotPositive)
    } else if !retry_ok(c.retry) {
        Some(ConfigIssue::RetryInvalid)
    } else if c.connections@.len() == 0 {
        Some(ConfigIssue::NoConnections)
    } else {
        connections_issue(c.connections@, c.connections@.len() as int)
    }
}

fn check_forward(name: &String, f: &ForwardConfig) -> (r: Result<(), ConfigError>)
    ensures
        match r {
            Ok(()) => forward_issue(name@, *f) is None,
            Err(e) => forward_issue(name@, *f) == Some(e@),
        },
{
    let cs = str_chars(f.forward.as_str());
    let spec_chars = trim_slice(cs.as_slice());
    if spec_chars.len() == 0 {
        return Err(ConfigError::EmptyForward(name.clone()));
    }
    let spec = string_from(spec_chars);
    match f.mode {
        ForwardMode::Dynamic => {
            if !is_valid_dynamic_forward_spec(spec.as_str()) {
                return Err(
                    ConfigError::InvalidDynamicForward {
                        connection: name.clone(),
                        forward: f.forward.clone(),
                    },
                );
            }
        },
        _ => {
            if !is_valid_static_forward_spec(spec.as_str()) {
                return Err(
                    ConfigError::InvalidStaticForward {
                        connection: name.clone(),
                        forward: f.forward.clone(),
                        mode: f.mode,
                    },
                );
            }
        },
    }
    Ok(())
}

fn name_seen(cs: &Vec<ConnectionConfig>, i: usize) -> (r: bool)
    requires
        i < cs@.len(),
    ensures
        r == name_taken_before(cs@, i as int),
{
    let mut j: usize = 0;
    while j < i
        invariant
            j <= i,
            i < cs@.len(),
            forall|k: int| 0 <= k < j ==> cs@[k].name@ != cs@[i as int].name@,
        decreases i - j,
    {
        if cs[j].name == cs[i].name {
            return true;
        }
        j = j + 1;
    }
    false
}

fn check_connection(cs: &Vec<ConnectionConfig>, i: usize) -> (r: Result<(), ConfigError>)
    requires
        i < cs@.len(),
    ensures
        match r {
            Ok(()) => connection_issue(cs@, i as int) is None,
            Err(e) => connection_issue(cs@, i as int) == Some(e@),
        },
{
    let c = &cs[i];
    let name_chars = str_chars(c.name.as_str());
    if is_blank(name_chars.as_slice()) {
        return Err(ConfigError::EmptyName);
    }
    let dest = c.destination();
    let dest_chars = str_chars(dest.as_str());
    if is_blank(dest_chars.as_slice()) {
        return Err(ConfigError::EmptyHost(c.name.clone()));
    }
    if let Some(p) = c.port {
        if p == 0 {
            return Err(ConfigError::PortZero(c.name.clone()));
        }
    }
    if c.forwards.len() == 0 {
        return Err(ConfigError::NoForwards(c.name.clone()));
    }
    let mut k: usize = 0;
    while k < c.forwards.len()
        invariant
            k <= c.forwards@.len(),
            i < cs@.len(),
            *c == cs@[i as int],
            trim(c.name@).len() != 0,
            trim(destination_of(*c)).len() != 0,
            c.port != Some(0u16),
            c.forwards@.len() != 0,
            forwards_issue(c.name@, c.forwards@, k as int) is None,
        decreases c.forwards@.len() - k,
    {
        match check_forward(&c.name, &c.forwards[k]) {
            Ok(()) => {},
            Err(e) => {
                proof {
                    assert(forwards_issue(c.name@, c.forwards@, k as int + 1) == Some(e@));
                    lemma_forwards_issue_stays(c.name@, c.forwards@, k as int + 1);
                    assert(connection_issue(cs@, i as int) == Some(e@));
                }
                return Err(e);
            },
        }
        k = k + 1;
    }
    if name_seen(cs, i) {
        return Err(ConfigError::DuplicateName(c.name.clone()));
    }
    Ok(())
}

/// Once a problem is found among the first `n` forwards, it stays the first.
proof fn lemma_forwards_issue_stays(name: Seq<char>, fs: Seq<ForwardConfig>, n: int)
    requires
        0 <= n <= fs.len(),
    ensures
        forwards_issue(name, fs, n) is Some ==> forwards_issue(name, fs, fs.len() as int)
            == forwards_issue(name, fs, n),
    decreases fs.len() - n,
{
    if n < fs.len() {
        lemma_forwards_issue_stays(name, fs, n + 1);
    }
}

/// Once a problem is found among the first `n` connections, it stays the first.
proof fn lemma_connections_issue_stays(cs: Seq<ConnectionConfig>, n: int)
    requires
        0 <= n <= cs.len(),
    ensures
        connections_issue(cs, n) is Some ==> connections_issue(cs, cs.len() as int)
            == connections_issue(cs, n),
    decreases cs.len() - n,
{
    if n < cs.len() {
        lemma_connections_issue_stays(cs, n + 1);
    }
}

proof fn lemma_no_connection_issue(cs: Seq<ConnectionConfig>, n: int)
    requires
        0 <= n <= cs.len(),
        connections_issue(cs, n) is None,
    ensures
        forall|i: int| 0 <= i < n ==> #[trigger] connection_issue(cs, i) is None,
    decreases n,
{
    if n > 0 {
        lemma_no_connection_issue(cs, n - 1);
    }
}

proof fn lemma_no_forward_issue(name: Seq<char>, fs: Seq<ForwardConfig>, n: int)
    requires
        0 <= n <= fs.len(),
        forwards_issue(name, fs, n) is None,
    ensures
        forall|k: int| 0 <= k < n ==> #[trigger] forward_issue(name, fs[k]) is None,
    decreases n,
{
    if n > 0 {
        lemma_no_forward_issue(name, fs, n - 1);
    }
}

/// What a valid configuration guarantees: positive keepalive values, a
/// sane retry range, at least one connection, and every connection with a
/// unique non-blank name, a destination, a usable port, at least one
/// forward, and only well-formed forward specs.
pub proof fn lemma_valid_config_guarantees(c: Config)
    requires
        config_issue(c) is None,
    ensures
        keepalive_ok(c.keepalive),
        retry_ok(c.retry),
        c.connections@.len() > 0,
        forall|i: int, j: int|
            0 <= i < j < c.connections@.len() ==> (#[trigger] c.connections@[i]).name@
                != (#[trigger] c.connections@[j]).name@,
        forall|i: int|
            0 <= i < c.connections@.len() ==> {
                let x = #[trigger] c.connections@[i];
                &&& trim(x.name@).len() > 0
                &&& trim(destination_of(x)).len() > 0
                &&& x.port != Some(0u16)
                &&& x.forwards@.len() > 0
                &&& forall|k: int|
                    0 <= k < x.forwards@.len() ==> #[trigger] forward_issue(x.name@, x.forwards@[k])
                        is None
            },
{
    let cs = c.connections@;
    lemma_no_connection_issue(cs, cs.len() as int);
    assert forall|i: int, j: int| 0 <= i < j < cs.len() implies (#[trigger] cs[i]).name@
        != (#[trigger] cs[j]).name@ by {
        assert(connection_issue(cs, j) is None);
        assert(!name_taken_before(cs, j));
    }
    assert forall|i: int| 0 <= i < cs.len() implies {
        let x = #[trigger] cs[i];
        &&& trim(x.name@).len() > 0
        &&& trim(destination_of(x)).len() > 0
        &&& x.port != Some(0u16)
        &&& x.forwards@.len() > 0
        &&& forall|k: int|
            0 <= k < x.forwards@.len() ==> #[trigger] forward_issue(x.name@, x.forwards@[k]) is None
    } by {
        assert(connection_issue(cs, i) is None);
        let x = cs[i];
        lemma_no_forward_issue(x.name@, x.forwards@, x.forwards@.len() as int);
    }
}

impl Config {
    /// Checks the rules the supervisor relies on; the first violation wins.
    pub fn validate(&self) -> (r: Result<(), ConfigError>)
        ensures
            match r {
                Ok(()) => config_issue(*self) is None,
                Err(e) => config_issue(*self) == Some(e@),
            },
    {
        if self.keepalive.interval == 0 || self.keepalive.count_max == 0
            || self.keepalive.connect_timeout == 0 {
            return Err(ConfigError::KeepaliveNotPositive);
        }
        if self.retry.initial_seconds == 0 || self.retry.maximum_seconds
            < self.retry.initial_seconds || self.retry.stable_seconds == 0 {
            return Err(ConfigError::RetryInvalid);
        }
        if self.connections.len() == 0 {
            return Err(ConfigError::NoConnections);
        }
        let mut i: usize = 0;
        while i < self.connections.len()
            invariant
                i <= self.connections@.len(),
                keepalive_ok(self.keepalive),
                retry_ok(self.retry),
                self.connections@.len() > 0,
                connections_issue(self.connections@, i as int) is None,
            decreases self.connections@.len() - i,
        {
            match check_connection(&self.connections, i) {
                Ok(()) => {},
                Err(e) => {
                    proof {
                        assert(connections_issue(self.connections@, i as int + 1) == Some(e@));
                        lemma_connections_issue_stays(self.connections@, i as int + 1);
                        assert(config_issue(*self) == Some(e@));
                    }
                    return Err(e);
                },
            }
            i = i + 1;
        }
        Ok(())
    }
}

// ───────────────────────── paths ─────────────────────────

/// `PathBuf::join` with `sep` as the separator: `part` is appended after a
/// separator unless `base` is empty or already ends with one.
pub open spec fn join_path(base: Seq<char>, part: Seq<char>, sep: char) -> Seq<char> {
    if base.len() == 0 {
        part
    } else if base.last() == sep {
        base + part
    } else {
        base.push(sep) + part
    }
}

fn join_in(base: &mut String, part: &str, sep: char)
    ensures
        final(base)@ == join_path(old(base)@, part@, sep),
{
    let cs = str_chars(base.as_str());
    if cs.len() == 0 {
        push_str(base, part);
    } else if cs[cs.len() - 1] == sep {
        push_str(base, part);
    } else {
        push_one(base, sep);
        push_str(base, part);
    }
}

/// The home directory: `$HOME` when set; otherwise, on Windows, the
/// `%USERPROFILE%` directory when that is set; otherwise the current
/// directory `.`.
pub open spec fn home_dir_of(
    home: Option<Seq<char>>,
    userprofile: Option<Seq<char>>,
    windows: bool,
) -> Seq<char> {
    match home {
        Some(h) => h,
        None => match userprofile {
            Some(u) => if windows {
                u
            } else {
                "."@
            },
            None => "."@,
        },
    }
}

/// Chooses the home directory from the values of `HOME` and `USERPROFILE`
/// (`None` where unset) and whether this is Windows.
pub fn home_dir_from(home: Option<String>, userprofile: Option<String>, windows: bool) -> (r: String)
    ensures
        r@ == home_dir_of(opt_view(home), opt_view(userprofile), windows),
{
    match home {
        Some(h) => h,
        None => match userprofile {
            Some(u) => if windows {
                u
            } else {
                owned(".")
            },
            None => owned("."),
        },
    }
}

/// `<home>/.config/autossh/config.toml`, joined with `sep`.
pub open spec fn home_config_path_of(home: Seq<char>, sep: char) -> Seq<char> {
    join_path(
        join_path(join_path(home, ".config"@, sep), "autossh"@, sep),
        "config.toml"@,
        sep,
    )
}

/// Standard config location under the user's home directory.
pub fn home_config_path(home: &str, sep: char) -> (r: String)
    ensures
        r@ == home_config_path_of(home@, sep),
{
    let mut p = owned(home);
    join_in(&mut p, ".config", sep);
    join_in(&mut p, "autossh", sep);
    join_in(&mut p, "config.toml", sep);
    p
}

} // verus!
