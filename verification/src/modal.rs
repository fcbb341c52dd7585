//! State of the editing dialogs, and the rules by which a closed dialog is
//! folded back into the configuration.
//!
//! Each dialog records a [`CloseAction`]; the caller applies or discards the
//! dialog's state according to it.

use vstd::prelude::*;

use crate::config::{destination_of, Config, ConnectionConfig, ForwardConfig, ForwardMode};
use crate::ssh_config::SshHostEntry;
use crate::text::{
    dec, dec_string, eq_chars, opt_view, owned, parse_unsigned, parse_unsigned_in, str_chars,
    string_from, trim, trim_slice,
};

verus! {

/// What the port field says when it cannot be read.
pub const PORT_RANGE_MESSAGE: &'static str = "port must be an integer from 1 to 65535";

/// Which global value the single-value dialog edits.
#[derive(Clone, Copy, Debug, PartialEq, Eq, Structural)]
pub enum GlobalGroup {
    KeepaliveInterval,
    KeepaliveCount,
    KeepaliveTimeout,
    RetryInitial,
    RetryMaximum,
    RetryStable,
}

pub open spec fn global_label(g: GlobalGroup) -> Seq<char> {
    match g {
        GlobalGroup::KeepaliveInterval => "keepalive.interval (s)"@,
        GlobalGroup::KeepaliveCount => "keepalive.count_max"@,
        GlobalGroup::KeepaliveTimeout => "keepalive.connect_timeout (s)"@,
        GlobalGroup::RetryInitial => "retry.initial_seconds (s)"@,
        GlobalGroup::RetryMaximum => "retry.maximum_seconds (s)"@,
        GlobalGroup::RetryStable => "retry.stable_seconds (s)"@,
    }
}

impl GlobalGroup {
    /// The name of the configuration key, with its unit.
    pub fn label(self) -> (r: &'static str)
        ensures
            r@ == global_label(self),
    {
        match self {
            GlobalGroup::KeepaliveInterval => "keepalive.interval (s)",
            GlobalGroup::KeepaliveCount => "keepalive.count_max",
            GlobalGroup::KeepaliveTimeout => "keepalive.connect_timeout (s)",
            GlobalGroup::RetryInitial => "retry.initial_seconds (s)",
            GlobalGroup::RetryMaximum => "retry.maximum_seconds (s)",
            GlobalGroup::RetryStable => "retry.stable_seconds (s)",
        }
    }
}

/// What the user did inside a dialog.
#[derive(Clone, Debug)]
pub enum CloseAction {
    /// Still open (nothing decided yet).
    Open,
    Commit,
    /// Closed without applying; the text says why.
    Cancel(&'static str),
}

impl Default for CloseAction {
    fn default() -> (r: Self)
        ensures
            r is Open,
    {
        CloseAction::Open
    }
}

/// Progress of the "test connection" probe of the add/edit dialog.
#[derive(Clone, Debug)]
pub enum TestStatus {
    Idle,
    Running,
    Done { ok: bool, message: String },
}

impl Default for TestStatus {
    fn default() -> (r: Self)
        ensures
            r is Idle,
    {
        TestStatus::Idle
    }
}

/// One forward row of the add/edit dialog.
#[derive(Clone, Debug)]
pub struct EditableForward {
    pub enabled: bool,
    pub mode: ForwardMode,
    pub forward: String,
    /// Free-form note; an empty one is stored as no description.
    pub description: String,
}

/// The add/edit connection dialog. The probe's result channel is kept by the
/// program beside this state.
#[derive(Debug)]
pub struct AddDialogState {
    pub name: String,
    pub description: String,
    pub host: String,
    /// Optional SSH user; the destination becomes `user@host` unless the host
    /// already names a user.
    pub user: String,
    /// Optional password for `sshpass -e`; empty for key or agent auth.
    pub password: String,
    /// Optional SSH port; empty means OpenSSH's default.
    pub port: String,
    pub forwards: Vec<EditableForward>,
    /// Rows marked for deletion, by position.
    pub checked: Vec<bool>,
    pub draft_mode: ForwardMode,
    pub draft_forward: String,
    pub draft_enabled: bool,
    pub draft_checked: bool,
    /// Note for the row about to be added.
    pub draft_desc: String,
    pub close: CloseAction,
    pub test_status: TestStatus,
}

/// The single-value dialog for a global setting.
#[derive(Debug)]
pub struct EditDialogState {
    pub group: GlobalGroup,
    pub value: String,
    pub close: CloseAction,
}

/// Outcome of loading another TOML config for import.
#[derive(Debug)]
pub enum ImportStatus {
    Idle,
    /// Loaded from this path.
    Loaded(String),
    Failed(String),
}

impl Default for ImportStatus {
    fn default() -> (r: Self)
        ensures
            r is Idle,
    {
        ImportStatus::Idle
    }
}

/// A connection offered by the TOML import dialog.
#[derive(Debug)]
pub struct CandidateConnection {
    pub name: String,
    pub host: String,
    pub forwards: Vec<ForwardConfig>,
    pub selected: bool,
    pub duplicate: bool,
}

/// The TOML import dialog.
#[derive(Debug)]
pub struct ImportDialogState {
    pub path_input: String,
    pub status: ImportStatus,
    pub candidates: Vec<CandidateConnection>,
    pub close: CloseAction,
}

/// Outcome of reading the SSH config for import.
#[derive(Debug)]
pub enum SshImportStatus {
    Idle,
    Loaded,
    Failed(String),
}

impl Default for SshImportStatus {
    fn default() -> (r: Self)
        ensures
            r is Idle,
    {
        SshImportStatus::Idle
    }
}

/// The SSH-config import dialog.
#[derive(Debug)]
pub struct SshImportState {
    pub source_path: String,
    pub candidates: Vec<SshHostEntry>,
    pub status: SshImportStatus,
    pub close: CloseAction,
}

// ───────────────────────── fields ─────────────────────────

/// A text field as optional storage: blank is none, otherwise the trimmed text.
pub open spec fn field_option(value: Seq<char>) -> Option<Seq<char>> {
    if trim(value).len() == 0 {
        None
    } else {
        Some(trim(value))
    }
}

/// The port field: blank is no port (`Some(None)`), a number from 1 to
/// 65535 is that port, anything else is unreadable (`None`).
pub open spec fn port_field(value: Seq<char>) -> Option<Option<u16>> {
    let t = trim(value);
    if t.len() == 0 {
        Some(None)
    } else {
        match parse_unsigned(t, u16::MAX as nat) {
            Some(p) => if p >= 1 {
                Some(Some(p as u16))
            } else {
                None
            },
            None => None,
        }
    }
}

/// Maps a dialog field to its optional stored form: blank input stores
/// nothing, other input is trimmed.
pub fn field_into_option(value: &str) -> (r: Option<String>)
    ensures
        opt_view(r) == field_option(value@),
{
    let cs = str_chars(value);
    let t = trim_slice(cs.as_slice());
    if t.len() == 0 {
        None
    } else {
        Some(string_from(t))
    }
}

/// Parses the optional SSH port, refusing zero and non-numbers.
pub fn field_into_port(value: &str) -> (r: Result<Option<u16>, &'static str>)
    ensures
        match r {
            Ok(p) => port_field(value@) == Some(p),
            Err(m) => port_field(value@) is None && m@ == PORT_RANGE_MESSAGE@,
        },
{
    let cs = str_chars(value);
    let t = trim_slice(cs.as_slice());
    if t.len() == 0 {
        return Ok(None);
    }
    match parse_unsigned_in(t, 65535) {
        Some(p) => if p >= 1 {
            Ok(Some(p as u16))
        } else {
            Err(PORT_RANGE_MESSAGE)
        },
        None => Err(PORT_RANGE_MESSAGE),
    }
}

impl EditableForward {
    /// The stored forward; a blank description becomes none.
    pub fn into_forward(self) -> (r: ForwardConfig)
        ensures
            r.enabled == self.enabled,
            r.mode == self.mode,
            r.forward == self.forward,
            opt_view(r.description) == field_option(self.description@),
    {
        let description = field_into_option(self.description.as_str());
        ForwardConfig {
            enabled: self.enabled,
            mode: self.mode,
            forward: self.forward,
            description,
        }
    }
}

// ───────────────────────── the add / edit dialog ─────────────────────────

/// Short label of a forward kind in the row's mode menu.
pub open spec fn mode_label(mode: ForwardMode) -> Seq<char> {
    match mode {
        ForwardMode::Local => "L local"@,
        ForwardMode::Remote => "R remote"@,
        ForwardMode::Dynamic => "D dynamic"@,
    }
}

pub fn forward_mode_label(mode: ForwardMode) -> (r: &'static str)
    ensures
        r@ == mode_label(mode),
{
    match mode {
        ForwardMode::Local => "L local",
        ForwardMode::Remote => "R remote",
        ForwardMode::Dynamic => "D dynamic",
    }
}

/// Placeholder of the forward field: which side listens, which is the target.
pub open spec fn mode_hint(mode: ForwardMode) -> Seq<char> {
    match mode {
        ForwardMode::Local => "0.0.0.0:8080:127.0.0.1:80  (L client\u{2192}target)"@,
        ForwardMode::Remote => "10022:127.0.0.1:22  (R server\u{2192}target)"@,
        ForwardMode::Dynamic => "1080  (D SOCKS)"@,
    }
}

pub fn forward_hint(mode: ForwardMode) -> (r: &'static str)
    ensures
        r@ == mode_hint(mode),
{
    match mode {
        ForwardMode::Local => "0.0.0.0:8080:127.0.0.1:80  (L client\u{2192}target)",
        ForwardMode::Remote => "10022:127.0.0.1:22  (R server\u{2192}target)",
        ForwardMode::Dynamic => "1080  (D SOCKS)",
    }
}

/// The text of an optional value, empty when there is none.
pub open spec fn or_empty(s: Option<Seq<char>>) -> Seq<char> {
    match s {
        Some(t) => t,
        None => Seq::empty(),
    }
}

/// The editable row for a stored forward.
pub open spec fn row_of(row: EditableForward, f: ForwardConfig) -> bool {
    &&& row.enabled == f.enabled
    &&& row.mode == f.mode
    &&& row.forward@ == f.forward@
    &&& row.description@ == or_empty(opt_view(f.description))
}

/// A dialog with nothing drafted, nothing marked, still open and untested.
pub open spec fn fresh_draft(s: AddDialogState) -> bool {
    &&& s.draft_mode == ForwardMode::Remote
    &&& s.draft_forward@.len() == 0
    &&& s.draft_enabled
    &&& !s.draft_checked
    &&& s.draft_desc@.len() == 0
    &&& s.close is Open
    &&& s.test_status is Idle
}

impl Default for AddDialogState {
    /// An empty dialog; new forwards default to remote ones.
    fn default() -> (r: Self)
        ensures
            r.name@.len() == 0,
            r.description@.len() == 0,
            r.host@.len() == 0,
            r.user@.len() == 0,
            r.password@.len() == 0,
            r.port@.len() == 0,
            r.forwards@.len() == 0,
            r.checked@.len() == 0,
            fresh_draft(r),
    {
        AddDialogState {
            name: String::new(),
            description: String::new(),
            host: String::new(),
            user: String::new(),
            password: String::new(),
            port: String::new(),
            forwards: Vec::new(),
            checked: Vec::new(),
            draft_mode: ForwardMode::Remote,
            draft_forward: String::new(),
            draft_enabled: true,
            draft_checked: false,
            draft_desc: String::new(),
            close: CloseAction::Open,
            test_status: TestStatus::Idle,
        }
    }
}

fn text_or_empty(s: &Option<String>) -> (r: String)
    ensures
        r@ == or_empty(opt_view(*s)),
{
    match s {
        Some(t) => t.clone(),
        None => String::new(),
    }
}

fn editable_rows(fs: &Vec<ForwardConfig>) -> (r: Vec<EditableForward>)
    ensures
        r@.len() == fs@.len(),
        forall|k: int| 0 <= k < fs@.len() ==> row_of(#[trigger] r@[k], fs@[k]),
{
    let mut r: Vec<EditableForward> = Vec::new();
    let mut i: usize = 0;
    while i < fs.len()
        invariant
            i <= fs@.len(),
            r@.len() == i,
            forall|k: int| 0 <= k < i ==> row_of(#[trigger] r@[k], fs@[k]),
        decreases fs@.len() - i,
    {
        let f = &fs[i];
        r.push(
            EditableForward {
                enabled: f.enabled,
                mode: f.mode,
                forward: f.forward.clone(),
                description: text_or_empty(&f.description),
            },
        );
        i = i + 1;
    }
    r
}

/// The dialog for editing a stored connection: its fields as text (a
/// missing host shows the name), one row per forward, nothing marked,
/// nothing drafted.
pub open spec fn dialog_of(r: AddDialogState, c: ConnectionConfig) -> bool {
    &&& r.name@ == c.name@
    &&& r.description@ == or_empty(opt_view(c.description))
    &&& r.host@ == (match c.host {
        Some(h) => h@,
        None => c.name@,
    })
    &&& r.user@ == or_empty(opt_view(c.user))
    &&& r.password@ == or_empty(opt_view(c.password))
    &&& r.port@ == (match c.port {
        Some(p) => dec(p as nat),
        None => Seq::empty(),
    })
    &&& r.forwards@.len() == c.forwards@.len()
    &&& forall|k: int| 0 <= k < c.forwards@.len() ==> row_of(#[trigger] r.forwards@[k], c.forwards@[k])
    &&& r.checked@ == Seq::new(c.forwards@.len(), |k: int| false)
    &&& fresh_draft(r)
}

/// Opens a stored connection in the edit dialog (see [`dialog_of`]).
pub fn state_from_connection(c: &ConnectionConfig) -> (r: AddDialogState)
    ensures
        dialog_of(r, *c),
{
    let n = c.forwards.len();
    let host = match &c.host {
        Some(h) => h.clone(),
        None => c.name.clone(),
    };
    let port = match c.port {
        Some(p) => dec_string(p as u64),
        None => String::new(),
    };
    let mut checked: Vec<bool> = Vec::new();
    let mut i: usize = 0;
    while i < n
        invariant
            i <= n,
            checked@ == Seq::new(i as nat, |k: int| false),
        decreases n - i,
    {
        checked.push(false);
        i = i + 1;
        assert(checked@ =~= Seq::new(i as nat, |k: int| false));
    }
    AddDialogState {
        name: c.name.clone(),
        description: text_or_empty(&c.description),
        host,
        user: text_or_empty(&c.user),
        password: text_or_empty(&c.password),
        port,
        forwards: editable_rows(&c.forwards),
        checked,
        draft_mode: ForwardMode::Remote,
        draft_forward: String::new(),
        draft_enabled: true,
        draft_checked: false,
        draft_desc: String::new(),
        close: CloseAction::Open,
        test_status: TestStatus::Idle,
    }
}

/// The throwaway connection that the probe tests: the dialog's identity and
/// authentication fields, an unreadable port read as none, no forwards.
pub fn connection_for_test(state: &AddDialogState) -> (r: ConnectionConfig)
    ensures
        r.name@ == trim(state.name@),
        opt_view(r.description) == field_option(state.description@),
        opt_view(r.host) == Some(trim(state.host@)),
        opt_view(r.user) == field_option(state.user@),
        opt_view(r.password) == field_option(state.password@),
        r.port == (match port_field(state.port@) {
            Some(p) => p,
            None => None,
        }),
        r.enabled,
        r.ssh_path is None,
        r.extra_args@.len() == 0,
        r.forwards@.len() == 0,
{
    let name = str_chars(state.name.as_str());
    let host = str_chars(state.host.as_str());
    let port = match field_into_port(state.port.as_str()) {
        Ok(p) => p,
        Err(_) => None,
    };
    ConnectionConfig {
        name: string_from(trim_slice(name.as_slice())),
        description: field_into_option(state.description.as_str()),
        host: Some(string_from(trim_slice(host.as_slice()))),
        user: field_into_option(state.user.as_str()),
        password: field_into_option(state.password.as_str()),
        port,
        enabled: true,
        ssh_path: None,
        extra_args: Vec::new(),
        forwards: Vec::new(),
    }
}

/// Every field but the forward rows and the draft is as before.
pub open spec fn same_identity(a: AddDialogState, b: AddDialogState) -> bool {
    &&& a.name == b.name
    &&& a.description == b.description
    &&& a.host == b.host
    &&& a.user == b.user
    &&& a.password == b.password
    &&& a.port == b.port
    &&& a.close == b.close
    &&& a.test_status == b.test_status
}

/// The effect of adding the draft row: a non-blank draft joins the rows
/// (trimmed, keeping its enabled state, note and mark) and the draft is
/// cleared for the next row; a blank draft changes nothing. The identity
/// fields stay as they were.
pub open spec fn draft_pushed(o: AddDialogState, f: AddDialogState) -> bool {
    &&& f.name == o.name
    &&& f.description == o.description
    &&& f.host == o.host
    &&& f.user == o.user
    &&& f.password == o.password
    &&& f.port == o.port
    &&& f.test_status == o.test_status
    &&& f.draft_mode == o.draft_mode
    &&& if trim(o.draft_forward@).len() == 0 {
        &&& f.forwards == o.forwards
        &&& f.checked == o.checked
        &&& f.draft_forward == o.draft_forward
        &&& f.draft_desc == o.draft_desc
        &&& f.draft_enabled == o.draft_enabled
        &&& f.draft_checked == o.draft_checked
    } else {
        let n = o.forwards@.len();
        let row = f.forwards@[n as int];
        &&& f.forwards@.len() == n + 1
        &&& f.forwards@.subrange(0, n as int) == o.forwards@
        &&& row.enabled == o.draft_enabled
        &&& row.mode == o.draft_mode
        &&& row.forward@ == trim(o.draft_forward@)
        &&& row.description == o.draft_desc
        &&& f.checked@ == o.checked@.push(o.draft_checked)
        &&& f.draft_forward@.len() == 0
        &&& f.draft_desc@.len() == 0
        &&& f.draft_enabled
        &&& !f.draft_checked
    }
}

/// Adds the draft row (see [`draft_pushed`]).
pub fn push_draft_forward(state: &mut AddDialogState)
    ensures
        draft_pushed(*old(state), *final(state)),
        final(state).close == old(state).close,
{
    let draft = str_chars(state.draft_forward.as_str());
    let t = trim_slice(draft.as_slice());
    if t.len() == 0 {
        return;
    }
    let forward = string_from(t);
    let mut description = String::new();
    std::mem::swap(&mut description, &mut state.draft_desc);
    state.forwards.push(
        EditableForward { enabled: state.draft_enabled, mode: state.draft_mode, forward, description },
    );
    state.checked.push(state.draft_checked);
    state.draft_forward = String::new();
    state.draft_enabled = true;
    state.draft_checked = false;
    proof {
        let n = old(state).forwards@.len();
        assert(state.forwards@.subrange(0, n as int) =~= old(state).forwards@);
    }
}

/// The marks of the rows after each frame's resize: one per row, new rows
/// unmarked.
pub open spec fn synced_marks(checked: Seq<bool>, n: nat) -> Seq<bool> {
    Seq::new(n, |k: int| k < checked.len() && checked[k])
}

/// The items whose mark is not set, in order.
pub open spec fn unmarked<A>(items: Seq<A>, marks: Seq<bool>) -> Seq<A>
    decreases items.len(),
{
    if items.len() == 0 {
        Seq::empty()
    } else {
        let prev = unmarked(items.drop_last(), marks);
        if marks[items.len() - 1] {
            prev
        } else {
            prev.push(items.last())
        }
    }
}

/// How many marks are set.
pub open spec fn marked_count(marks: Seq<bool>) -> nat
    decreases marks.len(),
{
    if marks.len() == 0 {
        0
    } else {
        marked_count(marks.drop_last()) + if marks.last() {
            1nat
        } else {
            0nat
        }
    }
}

/// Gives every forward row exactly one mark, as the dialog does each frame.
pub fn sync_checked(state: &mut AddDialogState)
    ensures
        final(state).checked@ == synced_marks(old(state).checked@, old(state).forwards@.len()),
        final(state).forwards == old(state).forwards,
        same_identity(*final(state), *old(state)),
{
    let n = state.forwards.len();
    let ghost before = state.checked@;
    state.checked.resize(n, false);
    assert(state.checked@ =~= synced_marks(before, n as nat));
}

/// The number of rows marked for deletion.
pub fn checked_count(checked: &Vec<bool>) -> (r: usize)
    ensures
        r == marked_count(checked@),
{
    let mut count: usize = 0;
    let mut i: usize = 0;
    while i < checked.len()
        invariant
            i <= checked@.len(),
            count == marked_count(checked@.subrange(0, i as int)),
            count <= i,
        decreases checked@.len() - i,
    {
        assert(checked@.subrange(0, i + 1).drop_last() =~= checked@.subrange(0, i as int));
        if checked[i] {
            count = count + 1;
        }
        i = i + 1;
    }
    assert(checked@.subrange(0, checked@.len() as int) =~= checked@);
    count
}

/// Deletes the marked rows; the remaining rows keep their order and no mark
/// remains set.
pub fn delete_checked_forwards(state: &mut AddDialogState)
    ensures
        final(state).forwards@ == unmarked(
            old(state).forwards@,
            synced_marks(old(state).checked@, old(state).forwards@.len()),
        ),
        final(state).checked@ == Seq::new(final(state).forwards@.len(), |k: int| false),
        same_identity(*final(state), *old(state)),
{
    sync_checked(state);
    let ghost marks = state.checked@;
    let mut rows: Vec<EditableForward> = Vec::new();
    std::mem::swap(&mut rows, &mut state.forwards);
    let ghost all = rows@;
    let n = rows.len();
    let mut kept: Vec<EditableForward> = Vec::new();
    let mut i: usize = 0;
    while i < n
        invariant
            i <= n,
            n == all.len(),
            marks.len() == n,
            rows@ == all.subrange(i as int, n as int),
            kept@ == unmarked(all.subrange(0, i as int), marks),
            state.checked@ == marks,
        decreases n - i,
    {
        let row = rows.remove(0);
        assert(all.subrange(0, i + 1).drop_last() =~= all.subrange(0, i as int));
        let mark = state.checked[i];
        if !mark {
            kept.push(row);
        }
        assert(rows@ =~= all.subrange(i + 1, n as int));
        i = i + 1;
    }
    assert(all.subrange(0, n as int) =~= all);
    let k = kept.len();
    state.forwards = kept;
    let mut cleared: Vec<bool> = Vec::new();
    let mut j: usize = 0;
    while j < k
        invariant
            j <= k,
            cleared@ == Seq::new(j as nat, |m: int| false),
        decreases k - j,
    {
        cleared.push(false);
        j = j + 1;
        assert(cleared@ =~= Seq::new(j as nat, |m: int| false));
    }
    state.checked = cleared;
}

/// Whether some connection other than the one at `except` has the same
/// trimmed name.
pub open spec fn name_taken_in(cs: Seq<ConnectionConfig>, name: Seq<char>, except: Option<usize>) -> bool {
    exists|k: int|
        0 <= k < cs.len() && except != Some(k as usize) && trim(#[trigger] cs[k].name@) == trim(
            name,
        )
}

/// Whether the dialog's name collides with another connection's.
pub fn name_taken(connections: &Vec<ConnectionConfig>, name: &str, except: Option<usize>) -> (r: bool)
    ensures
        r == name_taken_in(connections@, name@, except),
{
    let wanted = str_chars(name);
    let w = trim_slice(wanted.as_slice());
    let mut i: usize = 0;
    while i < connections.len()
        invariant
            i <= connections@.len(),
            w@ == trim(name@),
            forall|k: int|
                0 <= k < i && except != Some(k as usize) ==> trim(#[trigger] connections@[k].name@)
                    != trim(name@),
        decreases connections@.len() - i,
    {
        let other = str_chars(connections[i].name.as_str());
        let same = eq_chars(trim_slice(other.as_slice()), w);
        let skip = match except {
            Some(e) => e == i,
            None => false,
        };
        if same && !skip {
            return true;
        }
        i = i + 1;
    }
    false
}

/// The probe can be started: the host is not blank and no probe is running.
pub open spec fn can_test_spec(s: AddDialogState) -> bool {
    trim(s.host@).len() > 0 && !(s.test_status is Running)
}

pub fn can_test(state: &AddDialogState) -> (r: bool)
    ensures
        r == can_test_spec(*state),
{
    let host = str_chars(state.host.as_str());
    let running = match state.test_status {
        TestStatus::Running => true,
        _ => false,
    };
    trim_slice(host.as_slice()).len() > 0 && !running
}

/// Apply is offered when the name is free and not blank, the host is not
/// blank, the port readable, and there is a forward row or a drafted one.
pub open spec fn can_commit_spec(s: AddDialogState, name_taken: bool) -> bool {
    &&& !name_taken
    &&& trim(s.name@).len() > 0
    &&& trim(s.host@).len() > 0
    &&& port_field(s.port@) is Some
    &&& (s.forwards@.len() > 0 || trim(s.draft_forward@).len() > 0)
}

pub fn can_commit(state: &AddDialogState, name_taken: bool) -> (r: bool)
    ensures
        r == can_commit_spec(*state, name_taken),
{
    let name = str_chars(state.name.as_str());
    let host = str_chars(state.host.as_str());
    let draft = str_chars(state.draft_forward.as_str());
    let port_ok = match field_into_port(state.port.as_str()) {
        Ok(_) => true,
        Err(_) => false,
    };
    !name_taken && trim_slice(name.as_slice()).len() > 0 && trim_slice(host.as_slice()).len() > 0
        && port_ok && (state.forwards.len() > 0 || trim_slice(draft.as_slice()).len() > 0)
}

/// Apply: the draft row joins the forwards and the dialog commits.
pub fn apply_add_dialog(state: &mut AddDialogState)
    ensures
        draft_pushed(*old(state), *final(state)),
        final(state).close is Commit,
{
    push_draft_forward(state);
    state.close = CloseAction::Commit;
}

/// Starts the probe: the status shows it running.
pub fn begin_test(state: &mut AddDialogState)
    ensures
        final(state).test_status is Running,
        same_identity_but_test(*final(state), *old(state)),
{
    state.test_status = TestStatus::Running;
}

/// Every field but the probe status is as before.
pub open spec fn same_identity_but_test(a: AddDialogState, b: AddDialogState) -> bool {
    &&& a.name == b.name
    &&& a.description == b.description
    &&& a.host == b.host
    &&& a.user == b.user
    &&& a.password == b.password
    &&& a.port == b.port
    &&& a.close == b.close
    &&& a.forwards == b.forwards
    &&& a.checked == b.checked
    &&& a.draft_forward == b.draft_forward
    &&& a.draft_desc == b.draft_desc
    &&& a.draft_mode == b.draft_mode
    &&& a.draft_enabled == b.draft_enabled
    &&& a.draft_checked == b.draft_checked
}

/// Takes the probe's result, if one has arrived, while the probe runs.
pub fn poll_test(state: &mut AddDialogState, result: Option<(bool, String)>)
    ensures
        match (old(state).test_status, result) {
            (TestStatus::Running, Some((ok, message))) => final(state).test_status == (TestStatus::Done {
                ok,
                message,
            }),
            _ => final(state).test_status == old(state).test_status,
        },
        same_identity_but_test(*final(state), *old(state)),
{
    let running = match state.test_status {
        TestStatus::Running => true,
        _ => false,
    };
    if running {
        if let Some((ok, message)) = result {
            state.test_status = TestStatus::Done { ok, message };
        }
    }
}

/// The value typed in the single-value dialog, when it is a non-negative
/// integer that fits 64 bits (surrounding blanks allowed).
pub open spec fn global_value(value: Seq<char>) -> Option<nat> {
    parse_unsigned(trim(value), u64::MAX as nat)
}

pub fn parse_global_value(value: &str) -> (r: Option<u64>)
    ensures
        match r {
            Some(n) => global_value(value@) == Some(n as nat),
            None => global_value(value@) is None,
        },
{
    let cs = str_chars(value);
    parse_unsigned_in(trim_slice(cs.as_slice()), u64::MAX)
}

/// Apply in the single-value dialog: commits a readable value, otherwise
/// cancels with the reason.
pub fn apply_edit_dialog(state: &mut EditDialogState)
    ensures
        global_value(old(state).value@) is Some ==> final(state).close is Commit,
        global_value(old(state).value@) is None ==> final(state).close == CloseAction::Cancel(
            "not a non-negative integer",
        ),
        final(state).group == old(state).group,
        final(state).value == old(state).value,
{
    match parse_global_value(state.value.as_str()) {
        Some(_) => state.close = CloseAction::Commit,
        None => state.close = CloseAction::Cancel("not a non-negative integer"),
    }
}

// ───────────────────────── import lists ─────────────────────────

/// Every candidate that is not a duplicate is picked.
pub open spec fn all_candidates_picked(items: Seq<CandidateConnection>) -> bool {
    forall|k: int| 0 <= k < items.len() && !items[k].duplicate ==> #[trigger] items[k].selected
}

/// Some candidate is picked and is not a duplicate: the import can run.
pub open spec fn any_candidate_importable(items: Seq<CandidateConnection>) -> bool {
    exists|k: int| 0 <= k < items.len() && #[trigger] items[k].selected && !items[k].duplicate
}

pub fn candidates_all_picked(items: &Vec<CandidateConnection>) -> (r: bool)
    ensures
        r == all_candidates_picked(items@),
{
    let mut i: usize = 0;
    while i < items.len()
        invariant
            i <= items@.len(),
            forall|k: int| 0 <= k < i && !items@[k].duplicate ==> #[trigger] items@[k].selected,
        decreases items@.len() - i,
    {
        if !items[i].duplicate && !items[i].selected {
            return false;
        }
        i = i + 1;
    }
    true
}

pub fn candidates_importable(items: &Vec<CandidateConnection>) -> (r: bool)
    ensures
        r == any_candidate_importable(items@),
{
    let mut i: usize = 0;
    while i < items.len()
        invariant
            i <= items@.len(),
            forall|k: int| 0 <= k < i ==> !(#[trigger] items@[k].selected && !items@[k].duplicate),
        decreases items@.len() - i,
    {
        if items[i].selected && !items[i].duplicate {
            return true;
        }
        i = i + 1;
    }
    false
}

/// "Select all": every candidate that is not a duplicate takes `picked`.
pub fn pick_all_candidates(items: &mut Vec<CandidateConnection>, picked: bool)
    ensures
        final(items)@.len() == old(items)@.len(),
        forall|k: int|
            0 <= k < old(items)@.len() ==> #[trigger] final(items)@[k] == (if old(items)@[k].duplicate {
                old(items)@[k]
            } else {
                CandidateConnection { selected: picked, ..old(items)@[k] }
            }),
{
    let mut rest: Vec<CandidateConnection> = Vec::new();
    std::mem::swap(&mut rest, items);
    let ghost all = rest@;
    let n = rest.len();
    let mut i: usize = 0;
    while i < n
        invariant
            i <= n,
            n == all.len(),
            rest@ == all.subrange(i as int, n as int),
            items@.len() == i,
            forall|k: int|
                0 <= k < i ==> #[trigger] items@[k] == (if all[k].duplicate {
                    all[k]
                } else {
                    CandidateConnection { selected: picked, ..all[k] }
                }),
        decreases n - i,
    {
        let mut c = rest.remove(0);
        assert(c == all[i as int]);
        if !c.duplicate {
            c.selected = picked;
        }
        items.push(c);
        assert(rest@ =~= all.subrange(i + 1, n as int));
        i = i + 1;
    }
}

/// Every host that is not a duplicate is picked.
pub open spec fn all_hosts_picked(items: Seq<SshHostEntry>) -> bool {
    forall|k: int| 0 <= k < items.len() && !items[k].duplicate ==> #[trigger] items[k].selected
}

/// Some host is picked and is not a duplicate.
pub open spec fn any_host_importable(items: Seq<SshHostEntry>) -> bool {
    exists|k: int| 0 <= k < items.len() && #[trigger] items[k].selected && !items[k].duplicate
}

pub fn hosts_all_picked(items: &Vec<SshHostEntry>) -> (r: bool)
    ensures
        r == all_hosts_picked(items@),
{
    let mut i: usize = 0;
    while i < items.len()
        invariant
            i <= items@.len(),
            forall|k: int| 0 <= k < i && !items@[k].duplicate ==> #[trigger] items@[k].selected,
        decreases items@.len() - i,
    {
        if !items[i].duplicate && !items[i].selected {
            return false;
        }
        i = i + 1;
    }
    true
}

pub fn hosts_importable(items: &Vec<SshHostEntry>) -> (r: bool)
    ensures
        r == any_host_importable(items@),
{
    let mut i: usize = 0;
    while i < items.len()
        invariant
            i <= items@.len(),
            forall|k: int| 0 <= k < i ==> !(#[trigger] items@[k].selected && !items@[k].duplicate),
        decreases items@.len() - i,
    {
        if items[i].selected && !items[i].duplicate {
            return true;
        }
        i = i + 1;
    }
    false
}

/// "Select all" for hosts: every host that is not a duplicate takes `picked`.
pub fn pick_all_hosts(items: &mut Vec<SshHostEntry>, picked: bool)
    ensures
        final(items)@.len() == old(items)@.len(),
        forall|k: int|
            0 <= k < old(items)@.len() ==> #[trigger] final(items)@[k] == (if old(items)@[k].duplicate {
                old(items)@[k]
            } else {
                SshHostEntry { selected: picked, ..old(items)@[k] }
            }),
{
    let mut rest: Vec<SshHostEntry> = Vec::new();
    std::mem::swap(&mut rest, items);
    let ghost all = rest@;
    let n = rest.len();
    let mut i: usize = 0;
    while i < n
        invariant
            i <= n,
            n == all.len(),
            rest@ == all.subrange(i as int, n as int),
            items@.len() == i,
            forall|k: int|
                0 <= k < i ==> #[trigger] items@[k] == (if all[k].duplicate {
                    all[k]
                } else {
                    SshHostEntry { selected: picked, ..all[k] }
                }),
        decreases n - i,
    {
        let mut c = rest.remove(0);
        assert(c == all[i as int]);
        if !c.duplicate {
            c.selected = picked;
        }
        items.push(c);
        assert(rest@ =~= all.subrange(i + 1, n as int));
        i = i + 1;
    }
}

/// `name` is one of the listed names.
pub open spec fn name_listed(names: Seq<String>, name: Seq<char>) -> bool {
    exists|k: int| 0 <= k < names.len() && (#[trigger] names[k])@ == name
}

pub fn is_listed(names: &[String], name: &str) -> (r: bool)
    ensures
        r == name_listed(names@, name@),
{
    let wanted = str_chars(name);
    let mut i: usize = 0;
    while i < names.len()
        invariant
            i <= names@.len(),
            wanted@ == name@,
            forall|k: int| 0 <= k < i ==> (#[trigger] names@[k])@ != name@,
        decreases names@.len() - i,
    {
        let other = str_chars(names[i].as_str());
        if eq_chars(other.as_slice(), wanted.as_slice()) {
            return true;
        }
        i = i + 1;
    }
    false
}

/// The file the TOML import reads: the trimmed path, unless it is blank.
pub open spec fn import_path(path_input: Seq<char>) -> Option<Seq<char>> {
    if trim(path_input).len() == 0 {
        None
    } else {
        Some(trim(path_input))
    }
}

/// The candidate for a loaded connection: duplicates of existing names
/// start unpicked, new ones picked.
pub open spec fn candidate_of(c: CandidateConnection, conn: ConnectionConfig, existing: Seq<String>) -> bool {
    &&& c.name@ == conn.name@
    &&& c.host@ == destination_of(conn)
    &&& c.forwards@ == conn.forwards@
    &&& c.duplicate == name_listed(existing, conn.name@)
    &&& c.selected == !c.duplicate
}

impl ImportDialogState {
    /// The path to load, if the input is not blank.
    pub fn load_target(&self) -> (r: Option<String>)
        ensures
            opt_view(r) == import_path(self.path_input@),
    {
        field_into_option(self.path_input.as_str())
    }

    /// Takes the outcome of loading [`load_target`](Self::load_target): a
    /// blank path fails at once; a loaded config lists its connections,
    /// marking (and unpicking) names that already exist; a load error is
    /// shown and the list emptied.
    pub fn try_load(&mut self, existing: &[String], loaded: Result<Config, String>)
        ensures
            final(self).path_input == old(self).path_input,
            final(self).close == old(self).close,
            import_path(old(self).path_input@) is None ==> {
                &&& final(self).status matches ImportStatus::Failed(m) && m@ == "path is empty"@
                &&& final(self).candidates@.len() == 0
            },
            import_path(old(self).path_input@) matches Some(p) ==> match loaded {
                Ok(config) => {
                    &&& final(self).status matches ImportStatus::Loaded(q) && q@ == p
                    &&& final(self).candidates@.len() == config.connections@.len()
                    &&& forall|k: int|
                        0 <= k < config.connections@.len() ==> candidate_of(
                            #[trigger] final(self).candidates@[k],
                            config.connections@[k],
                            existing@,
                        )
                },
                Err(message) => {
                    &&& final(self).status == ImportStatus::Failed(message)
                    &&& final(self).candidates@.len() == 0
                },
            },
    {
        let path = match self.load_target() {
            None => {
                self.status = ImportStatus::Failed(owned("path is empty"));
                self.candidates = Vec::new();
                return;
            },
            Some(p) => p,
        };
        match loaded {
            Ok(config) => {
                let mut conns = config.connections;
                let ghost all = conns@;
                let n = conns.len();
                let mut out: Vec<CandidateConnection> = Vec::new();
                let mut i: usize = 0;
                while i < n
                    invariant
                        i <= n,
                        n == all.len(),
                        conns@ == all.subrange(i as int, n as int),
                        out@.len() == i,
                        forall|k: int|
                            0 <= k < i ==> candidate_of(#[trigger] out@[k], all[k], existing@),
                    decreases n - i,
                {
                    let c = conns.remove(0);
                    assert(c == all[i as int]);
                    let duplicate = is_listed(existing, c.name.as_str());
                    let host = c.destination();
                    out.push(
                        CandidateConnection {
                            name: c.name,
                            host,
                            forwards: c.forwards,
                            selected: !duplicate,
                            duplicate,
                        },
                    );
                    assert(conns@ =~= all.subrange(i + 1, n as int));
                    i = i + 1;
                }
                self.candidates = out;
                self.status = ImportStatus::Loaded(path);
            },
            Err(message) => {
                self.candidates = Vec::new();
                self.status = ImportStatus::Failed(message);
            },
        }
    }
}

/// The listed host as offered for import: marked when its alias already
/// exists, and unpicked.
pub open spec fn offered_host(h: SshHostEntry, parsed: SshHostEntry, existing: Seq<String>) -> bool {
    &&& h.alias == parsed.alias
    &&& h.destination == parsed.destination
    &&& h.port == parsed.port
    &&& h.duplicate == name_listed(existing, parsed.alias@)
    &&& !h.selected
}

impl SshImportState {
    /// Takes the outcome of reading the SSH config: its hosts are offered
    /// unpicked, aliases that already exist marked as duplicates (an empty
    /// list keeps what was shown); a read error is shown and the list
    /// emptied.
    pub fn try_load(&mut self, existing: &[String], parsed: Result<Vec<SshHostEntry>, String>)
        ensures
            final(self).source_path == old(self).source_path,
            final(self).close == old(self).close,
            match parsed {
                Ok(hosts) => {
                    &&& final(self).status is Loaded
                    &&& hosts@.len() == 0 ==> final(self).candidates == old(self).candidates
                    &&& hosts@.len() > 0 ==> {
                        &&& final(self).candidates@.len() == hosts@.len()
                        &&& forall|k: int|
                            0 <= k < hosts@.len() ==> offered_host(
                                #[trigger] final(self).candidates@[k],
                                hosts@[k],
                                existing@,
                            )
                    }
                },
                Err(message) => {
                    &&& final(self).status == SshImportStatus::Failed(message)
                    &&& final(self).candidates@.len() == 0
                },
            },
    {
        match parsed {
            Ok(hosts) => {
                let mut rest = hosts;
                let ghost all = rest@;
                let n = rest.len();
                let mut out: Vec<SshHostEntry> = Vec::new();
                let mut i: usize = 0;
                while i < n
                    invariant
                        i <= n,
                        n == all.len(),
                        rest@ == all.subrange(i as int, n as int),
                        out@.len() == i,
                        forall|k: int|
                            0 <= k < i ==> offered_host(#[trigger] out@[k], all[k], existing@),
                    decreases n - i,
                {
                    let mut h = rest.remove(0);
                    assert(h == all[i as int]);
                    h.duplicate = is_listed(existing, h.alias.as_str());
                    h.selected = false;
                    out.push(h);
                    assert(rest@ =~= all.subrange(i + 1, n as int));
                    i = i + 1;
                }
                if n > 0 {
                    self.candidates = out;
                }
                self.status = SshImportStatus::Loaded;
            },
            Err(message) => {
                self.candidates = Vec::new();
                self.status = SshImportStatus::Failed(message);
            },
        }
    }
}

} // verus!
