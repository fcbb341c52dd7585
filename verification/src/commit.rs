//! How the dialogs and the connection list change the configuration: a
//! committed add or edit, a new global value, an import, a deletion, and the
//! start/stop toggle of one connection.

use vstd::prelude::*;

use crate::config::{
    destination_of, same_forward, same_forwards, ConnectionConfig, ForwardConfig, ForwardMode,
    KeepaliveConfig, RetryConfig,
};
use crate::modal::{
    dialog_of, draft_pushed, field_into_option, field_into_port, field_option, global_value,
    marked_count, name_taken, name_taken_in, or_empty, parse_global_value, port_field, row_of,
    unmarked, AddDialogState, CandidateConnection, EditableForward, GlobalGroup,
};
use crate::ssh_config::SshHostEntry;

use std::collections::HashSet;
use crate::text::{
    dec, dec_string, lemma_dec_parses_back, opt_view, owned, push_str, str_chars, string_from,
    trim, trim_slice,
};

verus! {

/// The forward spec given to hosts imported from an SSH config, which
/// names no forwards: a reverse tunnel to the host's own SSH port.
pub const PLACEHOLDER_FORWARD: &'static str = "10022:127.0.0.1:22";

/// Why a committed dialog was not applied.
#[derive(Debug, PartialEq, Eq)]
pub enum CommitRefusal {
    /// The connection being edited is gone.
    Vanished,
    /// Another connection has this (trimmed) name.
    NameTaken(String),
    /// The port field cannot be read; the text says why.
    BadPort(&'static str),
}

/// The stored forward for a dialog row.
pub open spec fn forward_of_row(f: ForwardConfig, row: EditableForward) -> bool {
    &&& f.enabled == row.enabled
    &&& f.mode == row.mode
    &&& f.forward@ == row.forward@
    &&& opt_view(f.description) == field_option(row.description@)
}

/// The dialog's connection fields, as stored: trimmed name and host,
/// optional fields blank-as-none, the port, and one forward per row.
pub open spec fn fields_from_dialog(c: ConnectionConfig, s: AddDialogState) -> bool {
    &&& c.name@ == trim(s.name@)
    &&& opt_view(c.description) == field_option(s.description@)
    &&& opt_view(c.host) == Some(trim(s.host@))
    &&& opt_view(c.user) == field_option(s.user@)
    &&& opt_view(c.password) == field_option(s.password@)
    &&& port_field(s.port@) == Some(c.port)
    &&& c.forwards@.len() == s.forwards@.len()
    &&& forall|k: int|
        0 <= k < s.forwards@.len() ==> forward_of_row(#[trigger] c.forwards@[k], s.forwards@[k])
}

/// A connection added from the dialog: its fields, enabled, with the
/// default ssh program and no extra arguments.
pub open spec fn added_from_dialog(c: ConnectionConfig, s: AddDialogState) -> bool {
    &&& fields_from_dialog(c, s)
    &&& c.enabled
    &&& c.ssh_path is None
    &&& c.extra_args@.len() == 0
}

fn forwards_from_rows(rows: &Vec<EditableForward>) -> (r: Vec<ForwardConfig>)
    ensures
        r@.len() == rows@.len(),
        forall|k: int| 0 <= k < rows@.len() ==> forward_of_row(#[trigger] r@[k], rows@[k]),
{
    let mut out: Vec<ForwardConfig> = Vec::new();
    let mut i: usize = 0;
    while i < rows.len()
        invariant
            i <= rows@.len(),
            out@.len() == i,
            forall|k: int| 0 <= k < i ==> forward_of_row(#[trigger] out@[k], rows@[k]),
        decreases rows@.len() - i,
    {
        let row = &rows[i];
        out.push(
            ForwardConfig {
                enabled: row.enabled,
                mode: row.mode,
                forward: row.forward.clone(),
                description: field_into_option(row.description.as_str()),
            },
        );
        i = i + 1;
    }
    out
}

fn trimmed(s: &str) -> (r: String)
    ensures
        r@ == trim(s@),
{
    let cs = str_chars(s);
    string_from(trim_slice(cs.as_slice()))
}

/// Adds the committed dialog's connection at the end, unless its name is
/// taken or its port unreadable; then nothing changes. Returns the new
/// connection's position.
pub fn commit_new_connection(connections: &mut Vec<ConnectionConfig>, state: &AddDialogState) -> (r:
    Result<usize, CommitRefusal>)
    ensures
        name_taken_in(old(connections)@, state.name@, None) ==> {
            &&& r matches Err(CommitRefusal::NameTaken(n)) && n@ == trim(state.name@)
            &&& final(connections)@ == old(connections)@
        },
        !name_taken_in(old(connections)@, state.name@, None) && port_field(state.port@) is None
            ==> {
            &&& r matches Err(CommitRefusal::BadPort(_))
            &&& final(connections)@ == old(connections)@
        },
        !name_taken_in(old(connections)@, state.name@, None) && port_field(state.port@) is Some
            ==> {
            let n = old(connections)@.len();
            &&& r == Ok::<usize, CommitRefusal>(n as usize)
            &&& final(connections)@.len() == n + 1
            &&& final(connections)@.subrange(0, n as int) == old(connections)@
            &&& added_from_dialog(final(connections)@[n as int], *state)
        },
{
    if name_taken(connections, state.name.as_str(), None) {
        return Err(CommitRefusal::NameTaken(trimmed(state.name.as_str())));
    }
    let port = match field_into_port(state.port.as_str()) {
        Ok(p) => p,
        Err(message) => return Err(CommitRefusal::BadPort(message)),
    };
    let c = ConnectionConfig {
        name: trimmed(state.name.as_str()),
        description: field_into_option(state.description.as_str()),
        host: Some(trimmed(state.host.as_str())),
        user: field_into_option(state.user.as_str()),
        password: field_into_option(state.password.as_str()),
        port,
        enabled: true,
        ssh_path: None,
        extra_args: Vec::new(),
        forwards: forwards_from_rows(&state.forwards),
    };
    let n = connections.len();
    connections.push(c);
    assert(connections@.subrange(0, n as int) =~= old(connections)@);
    Ok(n)
}

/// A connection after an edit: the dialog's fields, while whether it is
/// enabled, its ssh program and its extra arguments stay.
pub open spec fn edited_from_dialog(c: ConnectionConfig, before: ConnectionConfig, s: AddDialogState) -> bool {
    &&& fields_from_dialog(c, s)
    &&& c.enabled == before.enabled
    &&& c.ssh_path == before.ssh_path
    &&& c.extra_args == before.extra_args
}

/// Overwrites the connection at `idx` with the committed dialog, unless it
/// is gone, another connection has the name, or the port is unreadable;
/// then nothing changes.
pub fn commit_edited_connection(
    connections: &mut Vec<ConnectionConfig>,
    idx: usize,
    state: &AddDialogState,
) -> (r: Result<(), CommitRefusal>)
    ensures
        idx >= old(connections)@.len() ==> {
            &&& r == Err::<(), CommitRefusal>(CommitRefusal::Vanished)
            &&& final(connections)@ == old(connections)@
        },
        idx < old(connections)@.len() && name_taken_in(old(connections)@, state.name@, Some(idx))
            ==> {
            &&& r matches Err(CommitRefusal::NameTaken(n)) && n@ == trim(state.name@)
            &&& final(connections)@ == old(connections)@
        },
        idx < old(connections)@.len() && !name_taken_in(old(connections)@, state.name@, Some(idx))
            && port_field(state.port@) is None ==> {
            &&& r matches Err(CommitRefusal::BadPort(_))
            &&& final(connections)@ == old(connections)@
        },
        idx < old(connections)@.len() && !name_taken_in(old(connections)@, state.name@, Some(idx))
            && port_field(state.port@) is Some ==> {
            &&& r is Ok
            &&& final(connections)@.len() == old(connections)@.len()
            &&& forall|k: int|
                0 <= k < old(connections)@.len() && k != idx ==> #[trigger] final(connections)@[k]
                    == old(connections)@[k]
            &&& edited_from_dialog(final(connections)@[idx as int], old(connections)@[idx as int], *state)
        },
{
    if idx >= connections.len() {
        return Err(CommitRefusal::Vanished);
    }
    if name_taken(connections, state.name.as_str(), Some(idx)) {
        return Err(CommitRefusal::NameTaken(trimmed(state.name.as_str())));
    }
    let port = match field_into_port(state.port.as_str()) {
        Ok(p) => p,
        Err(message) => return Err(CommitRefusal::BadPort(message)),
    };
    let before = connections.remove(idx);
    let c = ConnectionConfig {
        name: trimmed(state.name.as_str()),
        description: field_into_option(state.description.as_str()),
        host: Some(trimmed(state.host.as_str())),
        user: field_into_option(state.user.as_str()),
        password: field_into_option(state.password.as_str()),
        port,
        enabled: before.enabled,
        ssh_path: before.ssh_path,
        extra_args: before.extra_args,
        forwards: forwards_from_rows(&state.forwards),
    };
    connections.insert(idx, c);
    Ok(())
}

/// The globals with `group` set to `n` (the count is kept in 32 bits).
pub open spec fn with_global(
    k: KeepaliveConfig,
    r: RetryConfig,
    group: GlobalGroup,
    n: u64,
) -> (KeepaliveConfig, RetryConfig) {
    match group {
        GlobalGroup::KeepaliveInterval => (KeepaliveConfig { interval: n, ..k }, r),
        GlobalGroup::KeepaliveCount => (KeepaliveConfig { count_max: n as u32, ..k }, r),
        GlobalGroup::KeepaliveTimeout => (KeepaliveConfig { connect_timeout: n, ..k }, r),
        GlobalGroup::RetryInitial => (k, RetryConfig { initial_seconds: n, ..r }),
        GlobalGroup::RetryMaximum => (k, RetryConfig { maximum_seconds: n, ..r }),
        GlobalGroup::RetryStable => (k, RetryConfig { stable_seconds: n, ..r }),
    }
}

/// Applies a committed single-value dialog: a readable value replaces the
/// chosen global and is returned; otherwise nothing changes.
pub fn commit_global(
    keepalive: &mut KeepaliveConfig,
    retry: &mut RetryConfig,
    group: GlobalGroup,
    value: &str,
) -> (r: Option<u64>)
    ensures
        match global_value(value@) {
            None => r is None && *final(keepalive) == *old(keepalive) && *final(retry) == *old(retry),
            Some(n) => r == Some(n as u64) && (*final(keepalive), *final(retry)) == with_global(
                *old(keepalive),
                *old(retry),
                group,
                n as u64,
            ),
        },
{
    let n = match parse_global_value(value) {
        None => return None,
        Some(n) => n,
    };
    match group {
        GlobalGroup::KeepaliveInterval => keepalive.interval = n,
        GlobalGroup::KeepaliveCount => keepalive.count_max = n as u32,
        GlobalGroup::KeepaliveTimeout => keepalive.connect_timeout = n,
        GlobalGroup::RetryInitial => retry.initial_seconds = n,
        GlobalGroup::RetryMaximum => retry.maximum_seconds = n,
        GlobalGroup::RetryStable => retry.stable_seconds = n,
    }
    Some(n)
}

/// What an import did: how many connections were added, how many picked
/// ones were skipped as duplicates, and where the last one added stands.
#[derive(Debug, PartialEq, Eq)]
pub struct ImportTally {
    pub imported: usize,
    pub skipped: usize,
    pub last: Option<usize>,
}

/// A connection of this name exists.
pub open spec fn named_in(cs: Seq<ConnectionConfig>, name: Seq<char>) -> bool {
    exists|k: int| 0 <= k < cs.len() && (#[trigger] cs[k]).name@ == name
}

fn has_name(cs: &Vec<ConnectionConfig>, upto: usize, name: &str) -> (r: bool)
    requires
        upto <= cs@.len(),
    ensures
        r == named_in(cs@.subrange(0, upto as int), name@),
{
    let wanted = str_chars(name);
    let mut i: usize = 0;
    while i < upto
        invariant
            i <= upto <= cs@.len(),
            wanted@ == name@,
            forall|k: int| 0 <= k < i ==> (#[trigger] cs@[k]).name@ != name@,
        decreases upto - i,
    {
        let other = str_chars(cs[i].name.as_str());
        if crate::text::eq_chars(other.as_slice(), wanted.as_slice()) {
            assert(cs@.subrange(0, upto as int)[i as int] == cs@[i as int]);
            return true;
        }
        i = i + 1;
    }
    false
}

/// The candidates a TOML import adds: picked, and named unlike every
/// connection that existed before.
pub open spec fn takes_candidate(existing: Seq<ConnectionConfig>) -> spec_fn(CandidateConnection) -> bool {
    |c: CandidateConnection| c.selected && !named_in(existing, c.name@)
}

/// The picked candidates that a TOML import skips as duplicates.
pub open spec fn skips_candidate(existing: Seq<ConnectionConfig>) -> spec_fn(CandidateConnection) -> bool {
    |c: CandidateConnection| c.selected && named_in(existing, c.name@)
}

/// A connection imported from a TOML candidate.
pub open spec fn imported_candidate(c: ConnectionConfig, cand: CandidateConnection) -> bool {
    &&& c.name@ == cand.name@
    &&& opt_view(c.host) == Some(cand.host@)
    &&& c.forwards@ == cand.forwards@
    &&& c.description is None
    &&& c.user is None
    &&& c.password is None
    &&& c.port is None
    &&& c.enabled
    &&& c.ssh_path is None
    &&& c.extra_args@.len() == 0
}

/// Appends the picked candidates whose names are new, in order.
pub fn import_candidates(
    connections: &mut Vec<ConnectionConfig>,
    candidates: Vec<CandidateConnection>,
) -> (r: ImportTally)
    requires
        old(connections)@.len() + candidates@.len() <= usize::MAX,
    ensures
        ({
            let before = old(connections)@;
            let taken = candidates@.filter(takes_candidate(before));
            &&& final(connections)@.len() == before.len() + taken.len()
            &&& final(connections)@.subrange(0, before.len() as int) == before
            &&& forall|j: int|
                0 <= j < taken.len() ==> imported_candidate(
                    #[trigger] final(connections)@[before.len() + j],
                    taken[j],
                )
            &&& r.imported == taken.len()
            &&& r.skipped == candidates@.filter(skips_candidate(before)).len()
            &&& r.last == (if taken.len() > 0 {
                Some((final(connections)@.len() - 1) as usize)
            } else {
                None
            })
        }),
{
    let ghost before = connections@;
    let ghost all = candidates@;
    let n0 = connections.len();
    let n = candidates.len();
    let mut rest = candidates;
    let mut imported: usize = 0;
    let mut skipped: usize = 0;
    let mut last: Option<usize> = None;
    let mut i: usize = 0;
    while i < n
        invariant
            i <= n,
            n == all.len(),
            n0 == before.len(),
            n0 + n <= usize::MAX,
            rest@ == all.subrange(i as int, n as int),
            imported == all.subrange(0, i as int).filter(takes_candidate(before)).len(),
            skipped == all.subrange(0, i as int).filter(skips_candidate(before)).len(),
            imported <= i,
            skipped <= i,
            connections@.len() == n0 + imported,
            connections@.subrange(0, n0 as int) == before,
            forall|j: int|
                0 <= j < imported ==> imported_candidate(
                    #[trigger] connections@[n0 + j],
                    all.subrange(0, i as int).filter(takes_candidate(before))[j],
                ),
            last == (if imported > 0 {
                Some((connections@.len() - 1) as usize)
            } else {
                None
            }),
        decreases n - i,
    {
        let cand = rest.remove(0);
        assert(cand == all[i as int]);
        proof {
            reveal(Seq::filter);
            assert(all.subrange(0, i + 1).drop_last() =~= all.subrange(0, i as int));
        }
        let ghost taken_before = all.subrange(0, i as int).filter(takes_candidate(before));
        if cand.selected {
            if has_name(connections, n0, cand.name.as_str()) {
                skipped = skipped + 1;
            } else {
                let ghost prev = connections@;
                connections.push(
                    ConnectionConfig {
                        name: cand.name,
                        description: None,
                        host: Some(cand.host),
                        user: None,
                        password: None,
                        port: None,
                        enabled: true,
                        ssh_path: None,
                        extra_args: Vec::new(),
                        forwards: cand.forwards,
                    },
                );
                assert(connections@.subrange(0, n0 as int) =~= prev.subrange(0, n0 as int));
                imported = imported + 1;
                last = Some(connections.len() - 1);
                assert(all.subrange(0, i + 1).filter(takes_candidate(before)) == taken_before.push(all[i as int]));
            }
        }
        assert(rest@ =~= all.subrange(i + 1, n as int));
        i = i + 1;
    }
    assert(all.subrange(0, n as int) =~= all);
    ImportTally { imported, skipped, last }
}

/// The hosts an SSH-config import adds: picked, not marked as duplicates,
/// and with an alias unlike every connection that existed before.
pub open spec fn takes_host(existing: Seq<ConnectionConfig>) -> spec_fn(SshHostEntry) -> bool {
    |h: SshHostEntry| h.selected && !h.duplicate && !named_in(existing, h.alias@)
}

/// The hosts an SSH-config import counts as skipped: marked duplicates,
/// and picked ones whose alias exists.
pub open spec fn skips_host(existing: Seq<ConnectionConfig>) -> spec_fn(SshHostEntry) -> bool {
    |h: SshHostEntry| h.duplicate || (h.selected && named_in(existing, h.alias@))
}

/// The forward every host imported from an SSH config starts with.
pub open spec fn placeholder_forward(f: ForwardConfig) -> bool {
    &&& f.enabled
    &&& f.mode == ForwardMode::Remote
    &&& f.forward@ == PLACEHOLDER_FORWARD@
    &&& f.description is None
}

/// A connection imported from an SSH config host.
pub open spec fn imported_host(c: ConnectionConfig, h: SshHostEntry) -> bool {
    &&& c.name@ == h.alias@
    &&& opt_view(c.host) == Some(h.destination@)
    &&& c.forwards@.len() == 1
    &&& placeholder_forward(c.forwards@[0])
    &&& c.description is None
    &&& c.user is None
    &&& c.password is None
    &&& c.port is None
    &&& c.enabled
    &&& c.ssh_path is None
    &&& c.extra_args@.len() == 0
}

/// Appends the picked, new hosts, each with the placeholder forward.
pub fn import_ssh_hosts(connections: &mut Vec<ConnectionConfig>, hosts: Vec<SshHostEntry>) -> (r:
    ImportTally)
    requires
        old(connections)@.len() + hosts@.len() <= usize::MAX,
    ensures
        ({
            let before = old(connections)@;
            let taken = hosts@.filter(takes_host(before));
            &&& final(connections)@.len() == before.len() + taken.len()
            &&& final(connections)@.subrange(0, before.len() as int) == before
            &&& forall|j: int|
                0 <= j < taken.len() ==> imported_host(
                    #[trigger] final(connections)@[before.len() + j],
                    taken[j],
                )
            &&& r.imported == taken.len()
            &&& r.skipped == hosts@.filter(skips_host(before)).len()
            &&& r.last == (if taken.len() > 0 {
                Some((final(connections)@.len() - 1) as usize)
            } else {
                None
            })
        }),
{
    let ghost before = connections@;
    let ghost all = hosts@;
    let n0 = connections.len();
    let n = hosts.len();
    let mut rest = hosts;
    let mut imported: usize = 0;
    let mut skipped: usize = 0;
    let mut last: Option<usize> = None;
    let mut i: usize = 0;
    while i < n
        invariant
            i <= n,
            n == all.len(),
            n0 == before.len(),
            n0 + n <= usize::MAX,
            rest@ == all.subrange(i as int, n as int),
            imported == all.subrange(0, i as int).filter(takes_host(before)).len(),
            skipped == all.subrange(0, i as int).filter(skips_host(before)).len(),
            imported <= i,
            skipped <= i,
            connections@.len() == n0 + imported,
            connections@.subrange(0, n0 as int) == before,
            forall|j: int|
                0 <= j < imported ==> imported_host(
                    #[trigger] connections@[n0 + j],
                    all.subrange(0, i as int).filter(takes_host(before))[j],
                ),
            last == (if imported > 0 {
                Some((connections@.len() - 1) as usize)
            } else {
                None
            }),
        decreases n - i,
    {
        let h = rest.remove(0);
        assert(h == all[i as int]);
        proof {
            reveal(Seq::filter);
            assert(all.subrange(0, i + 1).drop_last() =~= all.subrange(0, i as int));
        }
        let ghost taken_before = all.subrange(0, i as int).filter(takes_host(before));
        if !h.selected || h.duplicate {
            if h.duplicate {
                skipped = skipped + 1;
            }
        } else if has_name(connections, n0, h.alias.as_str()) {
            skipped = skipped + 1;
        } else {
            let ghost prev = connections@;
            let placeholder = ForwardConfig {
                enabled: true,
                mode: ForwardMode::Remote,
                forward: owned(PLACEHOLDER_FORWARD),
                description: None,
            };
            let forwards = vec![placeholder];
            connections.push(
                ConnectionConfig {
                    name: h.alias,
                    description: None,
                    host: Some(h.destination),
                    user: None,
                    password: None,
                    port: None,
                    enabled: true,
                    ssh_path: None,
                    extra_args: Vec::new(),
                    forwards,
                },
            );
            assert(connections@.subrange(0, n0 as int) =~= prev.subrange(0, n0 as int));
            imported = imported + 1;
            last = Some(connections.len() - 1);
            assert(all.subrange(0, i + 1).filter(takes_host(before)) == taken_before.push(all[i as int]));
        }
        assert(rest@ =~= all.subrange(i + 1, n as int));
        i = i + 1;
    }
    assert(all.subrange(0, n as int) =~= all);
    ImportTally { imported, skipped, last }
}

/// The marks of the first `n` rows: a row is marked when its index is in
/// the set.
pub open spec fn marks_of_set(marked: Set<usize>, n: nat) -> Seq<bool> {
    Seq::new(n, |k: int| marked.contains(k as usize))
}

/// Deletes the connections whose indices are marked, keeping the others in
/// order, clears the marks, and returns how many went. Marks past the end of
/// the list mark no row.
pub fn delete_marked_connections(connections: &mut Vec<ConnectionConfig>, marked: &mut HashSet<usize>) -> (r:
    usize)
    ensures
        final(connections)@ == unmarked(
            old(connections)@,
            marks_of_set(old(marked)@, old(connections)@.len()),
        ),
        r == marked_count(marks_of_set(old(marked)@, old(connections)@.len())),
        r + final(connections)@.len() == old(connections)@.len(),
        final(marked)@ == Set::<usize>::empty(),
{
    broadcast use vstd::std_specs::hash::group_hash_axioms;
    let mut rest: Vec<ConnectionConfig> = Vec::new();
    std::mem::swap(&mut rest, connections);
    let ghost all = rest@;
    let ghost m = marks_of_set(marked@, all.len());
    let n = rest.len();
    let mut removed: usize = 0;
    let mut i: usize = 0;
    while i < n
        invariant
            i <= n,
            n == all.len(),
            m == marks_of_set(marked@, all.len()),
            rest@ == all.subrange(i as int, n as int),
            connections@ == unmarked(all.subrange(0, i as int), m),
            removed == marked_count(m.subrange(0, i as int)),
            removed + connections@.len() == i,
        decreases n - i,
    {
        let c = rest.remove(0);
        assert(all.subrange(0, i + 1).drop_last() =~= all.subrange(0, i as int));
        assert(m.subrange(0, i + 1).drop_last() =~= m.subrange(0, i as int));
        let mark = marked.contains(&i);
        assert(mark == m[i as int]);
        if mark {
            removed = removed + 1;
        } else {
            connections.push(c);
        }
        assert(rest@ =~= all.subrange(i + 1, n as int));
        i = i + 1;
    }
    assert(all.subrange(0, n as int) =~= all);
    assert(m.subrange(0, n as int) =~= m);
    marked.clear();
    removed
}

/// The selected row after a deletion: past the end it moves to the last
/// row (or the first, when none is left); otherwise it stays.
pub open spec fn selection_after(selected: nat, len: nat) -> nat {
    if selected >= len && selected > 0 {
        if len > 0 {
            (len - 1) as nat
        } else {
            0
        }
    } else {
        selected
    }
}

pub fn selection_after_delete(selected: usize, len: usize) -> (r: usize)
    ensures
        r == selection_after(selected as nat, len as nat),
{
    if selected >= len && selected > 0 {
        len.saturating_sub(1)
    } else {
        selected
    }
}

/// The start/stop button of a row: a row shows as running only while the
/// supervisor runs and the connection is enabled, so it starts (enables)
/// unless both hold, and stops (disables) otherwise.
pub open spec fn toggled_on(running: bool, was_enabled: bool) -> bool {
    !running || !was_enabled
}

/// Flips the row's desired state and returns whether it now starts;
/// `None` when there is no such row.
pub fn toggle_connection(connections: &mut Vec<ConnectionConfig>, index: usize, running: bool) -> (r:
    Option<bool>)
    ensures
        index >= old(connections)@.len() ==> r is None && final(connections)@ == old(connections)@,
        index < old(connections)@.len() ==> {
            let start = toggled_on(running, old(connections)@[index as int].enabled);
            &&& r == Some(start)
            &&& final(connections)@ == old(connections)@.update(
                index as int,
                ConnectionConfig { enabled: start, ..old(connections)@[index as int] },
            )
        },
{
    if index >= connections.len() {
        return None;
    }
    let mut c = connections.remove(index);
    let start = !running || !c.enabled;
    c.enabled = start;
    connections.insert(index, c);
    assert(connections@ =~= old(connections)@.update(
        index as int,
        ConnectionConfig { enabled: start, ..old(connections)@[index as int] },
    ));
    Some(start)
}

/// Sets a row's desired state back, as when saving the toggle failed.
pub fn set_enabled(connections: &mut Vec<ConnectionConfig>, index: usize, enabled: bool)
    ensures
        index >= old(connections)@.len() ==> final(connections)@ == old(connections)@,
        index < old(connections)@.len() ==> final(connections)@ == old(connections)@.update(
            index as int,
            ConnectionConfig { enabled, ..old(connections)@[index as int] },
        ),
{
    if index >= connections.len() {
        return;
    }
    let mut c = connections.remove(index);
    c.enabled = enabled;
    connections.insert(index, c);
    assert(connections@ =~= old(connections)@.update(
        index as int,
        ConnectionConfig { enabled, ..old(connections)@[index as int] },
    ));
}

/// What the application does once the toggled configuration has been saved,
/// or has failed to save.
#[derive(Clone, Copy, Debug, PartialEq, Eq, Structural)]
pub enum ToggleOutcome {
    /// Saving failed: the row's state was put back; report the failure.
    SaveFailed,
    /// The row starts; `launch_supervisor` when no supervisor runs yet.
    Starting { launch_supervisor: bool },
    /// The row stops.
    Stopping,
}

/// The outcome of a saved or failed toggle that chose `start`.
pub open spec fn toggle_outcome_of(start: bool, running: bool, saved: bool) -> ToggleOutcome {
    if !saved {
        ToggleOutcome::SaveFailed
    } else if start {
        ToggleOutcome::Starting { launch_supervisor: !running }
    } else {
        ToggleOutcome::Stopping
    }
}

/// Settles a toggle after the save: when saving failed the row gets back the
/// state it had before the toggle and the unsaved-changes flag stays as it
/// was; when it succeeded the toggled rows stay and nothing is left unsaved.
pub fn settle_toggle(
    connections: &mut Vec<ConnectionConfig>,
    index: usize,
    was_enabled: bool,
    start: bool,
    running: bool,
    saved: bool,
    dirty: &mut bool,
) -> (r: ToggleOutcome)
    ensures
        r == toggle_outcome_of(start, running, saved),
        !saved ==> *final(dirty) == *old(dirty),
        !saved && index < old(connections)@.len() ==> final(connections)@ == old(connections)@.update(
            index as int,
            ConnectionConfig { enabled: was_enabled, ..old(connections)@[index as int] },
        ),
        !saved && index >= old(connections)@.len() ==> final(connections)@ == old(connections)@,
        saved ==> !*final(dirty) && final(connections)@ == old(connections)@,
{
    if !saved {
        set_enabled(connections, index, was_enabled);
        return ToggleOutcome::SaveFailed;
    }
    *dirty = false;
    if start {
        ToggleOutcome::Starting { launch_supervisor: !running }
    } else {
        ToggleOutcome::Stopping
    }
}

/// A toggle whose save fails leaves the rows as they were before it.
pub proof fn lemma_failed_toggle_restores(
    before: Seq<ConnectionConfig>,
    toggled: Seq<ConnectionConfig>,
    settled: Seq<ConnectionConfig>,
    index: int,
    running: bool,
)
    requires
        0 <= index < before.len(),
        toggled == before.update(
            index,
            ConnectionConfig { enabled: toggled_on(running, before[index].enabled), ..before[index] },
        ),
        settled == toggled.update(index, ConnectionConfig { enabled: before[index].enabled, ..toggled[index] }),
    ensures
        settled == before,
{
    assert(settled =~= before);
}

/// The second line of a row: the destination, with `:port` when one is set,
/// then the description when it is not blank.
pub open spec fn row_details(c: ConnectionConfig) -> Seq<char> {
    let destination = match c.port {
        Some(p) => destination_of(c) + ":"@ + dec(p as nat),
        None => destination_of(c),
    };
    match c.description {
        Some(d) => if trim(d@).len() > 0 {
            destination + "  \u{b7}  "@ + d@
        } else {
            destination
        },
        None => destination,
    }
}

pub fn connection_details(c: &ConnectionConfig) -> (r: String)
    ensures
        r@ == row_details(*c),
{
    let mut out = c.destination();
    if let Some(p) = c.port {
        push_str(&mut out, ":");
        let digits = dec_string(p as u64);
        push_str(&mut out, digits.as_str());
    }
    if let Some(d) = &c.description {
        let cs = str_chars(d.as_str());
        if trim_slice(cs.as_slice()).len() > 0 {
            push_str(&mut out, "  \u{b7}  ");
            push_str(&mut out, d.as_str());
        }
    }
    out
}

/// The value of a global setting.
pub open spec fn global_value_of(k: KeepaliveConfig, r: RetryConfig, group: GlobalGroup) -> nat {
    match group {
        GlobalGroup::KeepaliveInterval => k.interval as nat,
        GlobalGroup::KeepaliveCount => k.count_max as nat,
        GlobalGroup::KeepaliveTimeout => k.connect_timeout as nat,
        GlobalGroup::RetryInitial => r.initial_seconds as nat,
        GlobalGroup::RetryMaximum => r.maximum_seconds as nat,
        GlobalGroup::RetryStable => r.stable_seconds as nat,
    }
}

/// How a global setting is shown, and the text its editor starts from: the
/// number, shown with ` s` except for the keepalive count.
pub fn global_texts(k: &KeepaliveConfig, r: &RetryConfig, group: GlobalGroup) -> (t: (String, String))
    ensures
        t.1@ == dec(global_value_of(*k, *r, group)),
        t.0@ == (if group == GlobalGroup::KeepaliveCount {
            dec(global_value_of(*k, *r, group))
        } else {
            dec(global_value_of(*k, *r, group)) + " s"@
        }),
{
    let n: u64 = match group {
        GlobalGroup::KeepaliveInterval => k.interval,
        GlobalGroup::KeepaliveCount => k.count_max as u64,
        GlobalGroup::KeepaliveTimeout => k.connect_timeout,
        GlobalGroup::RetryInitial => r.initial_seconds,
        GlobalGroup::RetryMaximum => r.maximum_seconds,
        GlobalGroup::RetryStable => r.stable_seconds,
    };
    let edit = dec_string(n);
    let mut shown = dec_string(n);
    match group {
        GlobalGroup::KeepaliveCount => {},
        _ => push_str(&mut shown, " s"),
    }
    (shown, edit)
}

/// Text that the dialog shows and stores back unchanged: none, or a
/// non-blank text without surrounding blanks.
pub open spec fn stable_text(t: Option<String>) -> bool {
    match t {
        Some(v) => v@.len() > 0 && trim(v@) == v@,
        None => true,
    }
}

/// A connection that an edit without changes stores back as it was: a
/// trimmed name, an explicit trimmed host, optional texts already in their
/// stored form, and a port, if any, that the port field accepts.
pub open spec fn survives_unchanged_edit(c: ConnectionConfig) -> bool {
    &&& trim(c.name@) == c.name@
    &&& c.host matches Some(h) && h@.len() > 0 && trim(h@) == h@
    &&& stable_text(c.description)
    &&& stable_text(c.user)
    &&& stable_text(c.password)
    &&& c.port != Some(0u16)
    &&& forall|k: int| 0 <= k < c.forwards@.len() ==> stable_text(#[trigger] c.forwards@[k].description)
}

proof fn lemma_stable_text_round_trip(t: Option<String>)
    requires
        stable_text(t),
    ensures
        field_option(or_empty(opt_view(t))) == opt_view(t),
{
    match t {
        Some(v) => {},
        None => {
            assert(trim(Seq::<char>::empty()) =~= Seq::<char>::empty());
        },
    }
}

/// Opening a connection in the edit dialog and applying it without a change
/// stores the same connection: the dialog's fields and rows give back every
/// stored field.
pub proof fn lemma_unchanged_edit_keeps_connection(
    c: ConnectionConfig,
    dialog: AddDialogState,
    stored: ConnectionConfig,
)
    requires
        survives_unchanged_edit(c),
        dialog_of(dialog, c),
        fields_from_dialog(stored, dialog),
    ensures
        stored.name@ == c.name@,
        opt_view(stored.description) == opt_view(c.description),
        opt_view(stored.host) == opt_view(c.host),
        opt_view(stored.user) == opt_view(c.user),
        opt_view(stored.password) == opt_view(c.password),
        stored.port == c.port,
        same_forwards(stored.forwards@, c.forwards@),
{
    lemma_stable_text_round_trip(c.description);
    lemma_stable_text_round_trip(c.user);
    lemma_stable_text_round_trip(c.password);
    match c.port {
        Some(p) => {
            lemma_dec_parses_back(p as nat, u16::MAX as nat);
        },
        None => {
            assert(trim(Seq::<char>::empty()) =~= Seq::<char>::empty());
        },
    }
    assert forall|k: int| 0 <= k < c.forwards@.len() implies same_forward(
        #[trigger] stored.forwards@[k],
        c.forwards@[k],
    ) by {
        assert(row_of(dialog.forwards@[k], c.forwards@[k]));
        assert(forward_of_row(stored.forwards@[k], dialog.forwards@[k]));
        lemma_stable_text_round_trip(c.forwards@[k].description);
    }
}

/// With a draft left empty, applying the dialog changes no row.
pub proof fn lemma_empty_draft_keeps_rows(before: AddDialogState, after: AddDialogState)
    requires
        before.draft_forward@.len() == 0,
        draft_pushed(before, after),
    ensures
        after.forwards == before.forwards,
        after.name == before.name,
        after.host == before.host,
        after.port == before.port,
{
    assert(trim(before.draft_forward@) =~= Seq::<char>::empty());
}

/// A global value written through the dialog reads back as written (the
/// keepalive count keeps its low 32 bits), and no other global changes.
pub proof fn lemma_global_reads_back(k: KeepaliveConfig, r: RetryConfig, group: GlobalGroup, n: u64)
    ensures
        ({
            let (k2, r2) = with_global(k, r, group, n);
            &&& global_value_of(k2, r2, group) == if group == GlobalGroup::KeepaliveCount {
                (n as u32) as nat
            } else {
                n as nat
            }
            &&& forall|other: GlobalGroup|
                other != group ==> #[trigger] global_value_of(k2, r2, other) == global_value_of(
                    k,
                    r,
                    other,
                )
        }),
{
}

/// An import never adds a connection under a name that already existed:
/// every connection a TOML or SSH-config import adds has a new name, and
/// was picked.
pub proof fn lemma_imports_add_only_new_names(
    before: Seq<ConnectionConfig>,
    candidates: Seq<CandidateConnection>,
    hosts: Seq<SshHostEntry>,
)
    ensures
        forall|j: int|
            0 <= j < candidates.filter(takes_candidate(before)).len() ==> {
                let c = #[trigger] candidates.filter(takes_candidate(before))[j];
                c.selected && !named_in(before, c.name@)
            },
        forall|j: int|
            0 <= j < hosts.filter(takes_host(before)).len() ==> {
                let h = #[trigger] hosts.filter(takes_host(before))[j];
                h.selected && !h.duplicate && !named_in(before, h.alias@)
            },
{
    assert forall|j: int| 0 <= j < candidates.filter(takes_candidate(before)).len() implies {
        let c = #[trigger] candidates.filter(takes_candidate(before))[j];
        c.selected && !named_in(before, c.name@)
    } by {
        candidates.lemma_filter_pred(takes_candidate(before), j);
    }
    assert forall|j: int| 0 <= j < hosts.filter(takes_host(before)).len() implies {
        let h = #[trigger] hosts.filter(takes_host(before))[j];
        h.selected && !h.duplicate && !named_in(before, h.alias@)
    } by {
        hosts.lemma_filter_pred(takes_host(before), j);
    }
}

} // verus!
