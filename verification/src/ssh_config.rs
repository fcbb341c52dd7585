//! OpenSSH `ssh_config(5)` host blocks as importable connection entries.
//!
//! SSH config carries no port-forward directives, so an entry only records
//! `user@host:port`; the import adds a placeholder reverse tunnel later.

use vstd::prelude::*;

use crate::text::{
    char_vecs_view, dec, dec_string, eq_text, has_char, has_char_in, lemma_find_from_result,
    lower, lower_in, parse_unsigned, parse_unsigned_in, push_chars, push_str, split_once,
    split_once_in, str_chars, string_from, trim, trim_end_char, trim_end_char_in,
    trim_start_char, trim_start_char_in, trim_slice, word_end, words, words_in,
};

verus! {

/// The SSH port used when a block names none (or an unreadable one).
pub const DEFAULT_SSH_PORT: u16 = 22;

/// One host alias found in an SSH config.
#[derive(Debug)]
pub struct SshHostEntry {
    pub alias: String,
    pub destination: String,
    pub port: u16,
    pub selected: bool,
    pub duplicate: bool,
}

/// The plain values of an [`SshHostEntry`].
pub struct SshHostView {
    pub alias: Seq<char>,
    pub destination: Seq<char>,
    pub port: u16,
    pub selected: bool,
    pub duplicate: bool,
}

impl View for SshHostEntry {
    type V = SshHostView;

    open spec fn view(&self) -> SshHostView {
        SshHostView {
            alias: self.alias@,
            destination: self.destination@,
            port: self.port,
            selected: self.selected,
            duplicate: self.duplicate,
        }
    }
}

pub open spec fn entries_view(v: Seq<SshHostEntry>) -> Seq<SshHostView> {
    v.map_values(|e: SshHostEntry| e@)
}

/// An alias with `*` or `?` is a pattern, not one host.
pub open spec fn is_pattern(alias: Seq<char>) -> bool {
    has_char(alias, '*') || has_char(alias, '?')
}

/// `[user@]hostname:port`, where the hostname defaults to the alias.
pub open spec fn host_destination(
    alias: Seq<char>,
    host: Seq<char>,
    user: Seq<char>,
    port: u16,
) -> Seq<char> {
    let hostname = if host.len() == 0 {
        alias
    } else {
        host
    };
    let prefix = if user.len() == 0 {
        Seq::<char>::empty()
    } else {
        user + "@"@
    };
    prefix + hostname + ":"@ + dec(port as nat)
}

/// The entry for one alias of a block; new entries start selected.
pub open spec fn host_entry(alias: Seq<char>, host: Seq<char>, user: Seq<char>, port: u16) -> SshHostView {
    SshHostView {
        alias,
        destination: host_destination(alias, host, user, port),
        port,
        selected: true,
        duplicate: false,
    }
}

/// The entries of a `Host` block: one per alias that is not a pattern, in order.
pub open spec fn block_entries(
    aliases: Seq<Seq<char>>,
    host: Seq<char>,
    user: Seq<char>,
    port: u16,
) -> Seq<SshHostView>
    decreases aliases.len(),
{
    if aliases.len() == 0 {
        Seq::empty()
    } else {
        let prev = block_entries(aliases.drop_last(), host, user, port);
        if is_pattern(aliases.last()) {
            prev
        } else {
            prev.push(host_entry(aliases.last(), host, user, port))
        }
    }
}

/// The `Host` block being read.
pub struct HostBlock {
    pub aliases: Seq<Seq<char>>,
    pub host: Seq<char>,
    pub user: Seq<char>,
    pub port: u16,
}

/// Progress through a config: the finished entries and the open block.
pub struct SshScan {
    pub entries: Seq<SshHostView>,
    pub block: HostBlock,
}

pub open spec fn fresh_block(aliases: Seq<Seq<char>>) -> HostBlock {
    HostBlock { aliases, host: Seq::empty(), user: Seq::empty(), port: DEFAULT_SSH_PORT }
}

pub open spec fn scan_start() -> SshScan {
    SshScan { entries: Seq::empty(), block: fresh_block(Seq::empty()) }
}

/// The finished entries followed by those of the open block.
pub open spec fn flush(st: SshScan) -> Seq<SshHostView> {
    st.entries + block_entries(st.block.aliases, st.block.host, st.block.user, st.block.port)
}

/// A line without its `#` comment.
pub open spec fn before_comment(raw: Seq<char>) -> Seq<char> {
    match split_once(raw, "#"@) {
        Some((before, _)) => before,
        None => raw,
    }
}

/// The keyword of a trimmed, non-empty line: up to its first whitespace,
/// in lower case.
pub open spec fn directive_key(line: Seq<char>) -> Seq<char> {
    lower(line.subrange(0, word_end(line, 0)))
}

/// The argument of a trimmed line: what follows the first whitespace,
/// trimmed and without surrounding double quotes.
pub open spec fn directive_value(line: Seq<char>) -> Seq<char> {
    let k = word_end(line, 0);
    let rest = if k < line.len() {
        line.subrange(k + 1, line.len() as int)
    } else {
        Seq::empty()
    };
    trim_end_char(trim_start_char(trim(rest), '"'), '"')
}

/// `Port` value: a number that fits 16 bits, else the default.
pub open spec fn port_value(value: Seq<char>) -> u16 {
    match parse_unsigned(value, u16::MAX as nat) {
        Some(p) => p as u16,
        None => DEFAULT_SSH_PORT,
    }
}

/// One line's effect: `Host` closes the open block and opens one for its
/// aliases; `HostName`, `User` and `Port` fill the open block; blank lines,
/// comments and other directives change nothing.
pub open spec fn scan_line(st: SshScan, raw: Seq<char>) -> SshScan {
    let line = trim(before_comment(raw));
    if line.len() == 0 {
        st
    } else {
        let key = directive_key(line);
        let value = directive_value(line);
        if key == "host"@ {
            SshScan { entries: flush(st), block: fresh_block(words(value)) }
        } else if key == "hostname"@ {
            SshScan { block: HostBlock { host: value, ..st.block }, ..st }
        } else if key == "user"@ {
            SshScan { block: HostBlock { user: value, ..st.block }, ..st }
        } else if key == "port"@ {
            SshScan { block: HostBlock { port: port_value(value), ..st.block }, ..st }
        } else {
            st
        }
    }
}

/// Reads `text` line by line (lines end at `\n`; a trailing `\r` and the
/// empty piece after a final newline are blank once trimmed).
pub open spec fn scan_text(st: SshScan, text: Seq<char>) -> SshScan
    decreases text.len(),
{
    match split_once(text, "\n"@) {
        None => scan_line(st, text),
        Some((line, rest)) => {
            proof {
                reveal_strlit("\n");
                lemma_find_from_result(text, "\n"@, 0);
            }
            scan_text(scan_line(st, line), rest)
        },
    }
}

/// The host entries of an SSH config text.
pub open spec fn ssh_config_entries(text: Seq<char>) -> Seq<SshHostView> {
    flush(scan_text(scan_start(), text))
}

/// An entry as the import offers it: a single host (no pattern), picked,
/// not yet marked as a duplicate.
pub open spec fn offered(e: SshHostView) -> bool {
    !is_pattern(e.alias) && e.selected && !e.duplicate
}

pub open spec fn all_offered(s: Seq<SshHostView>) -> bool {
    forall|k: int| 0 <= k < s.len() ==> offered(#[trigger] s[k])
}

proof fn lemma_block_entries_offered(aliases: Seq<Seq<char>>, host: Seq<char>, user: Seq<char>, port: u16)
    ensures
        all_offered(block_entries(aliases, host, user, port)),
    decreases aliases.len(),
{
    if aliases.len() > 0 {
        lemma_block_entries_offered(aliases.drop_last(), host, user, port);
    }
}

proof fn lemma_concat_offered(a: Seq<SshHostView>, b: Seq<SshHostView>)
    requires
        all_offered(a),
        all_offered(b),
    ensures
        all_offered(a + b),
{
    assert forall|k: int| 0 <= k < (a + b).len() implies offered(#[trigger] (a + b)[k]) by {
        if k < a.len() {
            assert((a + b)[k] == a[k]);
        } else {
            assert((a + b)[k] == b[k - a.len()]);
        }
    }
}

proof fn lemma_scan_text_offered(st: SshScan, text: Seq<char>)
    requires
        all_offered(st.entries),
    ensures
        all_offered(scan_text(st, text).entries),
        all_offered(flush(scan_text(st, text))),
    decreases text.len(),
{
    lemma_scan_line_offered(st, text);
    match split_once(text, "\n"@) {
        None => {},
        Some((line, rest)) => {
            reveal_strlit("\n");
            lemma_find_from_result(text, "\n"@, 0);
            lemma_scan_line_offered(st, line);
            lemma_scan_text_offered(scan_line(st, line), rest);
        },
    }
    let end = scan_text(st, text);
    lemma_block_entries_offered(end.block.aliases, end.block.host, end.block.user, end.block.port);
    lemma_concat_offered(end.entries, block_entries(end.block.aliases, end.block.host, end.block.user, end.block.port));
}

proof fn lemma_scan_line_offered(st: SshScan, raw: Seq<char>)
    requires
        all_offered(st.entries),
    ensures
        all_offered(scan_line(st, raw).entries),
{
    lemma_block_entries_offered(st.block.aliases, st.block.host, st.block.user, st.block.port);
    lemma_concat_offered(st.entries, block_entries(st.block.aliases, st.block.host, st.block.user, st.block.port));
}

/// The import only offers single hosts: patterns such as `Host *` or
/// `Host web-?` never become entries, and every entry starts picked and
/// unmarked.
pub proof fn lemma_config_offers_only_hosts(text: Seq<char>)
    ensures
        all_offered(ssh_config_entries(text)),
{
    lemma_scan_text_offered(scan_start(), text);
}

struct ScanState {
    entries: Vec<SshHostEntry>,
    aliases: Vec<Vec<char>>,
    host: Vec<char>,
    user: Vec<char>,
    port: u16,
}

impl ScanState {
    closed spec fn model(&self) -> SshScan {
        SshScan {
            entries: entries_view(self.entries@),
            block: HostBlock {
                aliases: char_vecs_view(self.aliases@),
                host: self.host@,
                user: self.user@,
                port: self.port,
            },
        }
    }
}

fn destination_string(alias: &[char], host: &[char], user: &[char], port: u16) -> (r: String)
    ensures
        r@ == host_destination(alias@, host@, user@, port),
{
    let mut out = String::new();
    if user.len() > 0 {
        push_chars(&mut out, user);
        push_str(&mut out, "@");
    }
    if host.len() == 0 {
        push_chars(&mut out, alias);
    } else {
        push_chars(&mut out, host);
    }
    push_str(&mut out, ":");
    let p = dec_string(port as u64);
    push_str(&mut out, p.as_str());
    assert(out@ =~= host_destination(alias@, host@, user@, port));
    out
}

fn push_block(
    entries: &mut Vec<SshHostEntry>,
    aliases: &Vec<Vec<char>>,
    host: &[char],
    user: &[char],
    port: u16,
)
    ensures
        entries_view(final(entries)@) == entries_view(old(entries)@) + block_entries(
            char_vecs_view(aliases@),
            host@,
            user@,
            port,
        ),
{
    let ghost names = char_vecs_view(aliases@);
    let mut i: usize = 0;
    while i < aliases.len()
        invariant
            i <= aliases@.len(),
            names == char_vecs_view(aliases@),
            entries_view(entries@) == entries_view(old(entries)@) + block_entries(
                names.subrange(0, i as int),
                host@,
                user@,
                port,
            ),
        decreases aliases@.len() - i,
    {
        let alias = aliases[i].as_slice();
        let ghost before = entries_view(entries@);
        assert(names.subrange(0, i + 1).drop_last() =~= names.subrange(0, i as int));
        assert(names.subrange(0, i + 1).last() == alias@);
        if !has_char_in(alias, '*') && !has_char_in(alias, '?') {
            let destination = destination_string(alias, host, user, port);
            entries.push(
                SshHostEntry {
                    alias: string_from(alias),
                    destination,
                    port,
                    selected: true,
                    duplicate: false,
                },
            );
            assert(entries_view(entries@) =~= before.push(host_entry(alias@, host@, user@, port)));
        }
        i = i + 1;
    }
    assert(names.subrange(0, aliases@.len() as int) =~= names);
}

fn scan_line_in(st: &mut ScanState, raw: &[char])
    ensures
        final(st).model() == scan_line(old(st).model(), raw@),
{
    let hash = str_chars("#");
    let before = match split_once_in(raw, hash.as_slice()) {
        Some((b, _)) => b,
        None => raw,
    };
    let line = trim_slice(before);
    if line.len() == 0 {
        return;
    }
    let n = line.len();
    let mut k: usize = 0;
    while k < n && !crate::text::is_whitespace(line[k])
        invariant
            k <= n,
            n == line@.len(),
            word_end(line@, 0) == word_end(line@, k as int),
        decreases n - k,
    {
        k = k + 1;
    }
    proof {
        crate::text::lemma_run_ends_within(line@, k as int);
    }
    let key = lower_in(&line[0..k]);
    let rest: &[char] = if k < n {
        &line[k + 1..n]
    } else {
        &line[n..n]
    };
    let v1 = trim_slice(rest);
    let v2 = trim_start_char_in(v1, '"');
    let value = trim_end_char_in(v2, '"');
    assert(value@ == directive_value(line@));
    assert(key@ == directive_key(line@));
    if eq_text(key.as_slice(), "host") {
        let ghost old_aliases = char_vecs_view(st.aliases@);
        push_block(&mut st.entries, &st.aliases, st.host.as_slice(), st.user.as_slice(), st.port);
        st.aliases = words_in(value);
        st.host = Vec::new();
        st.user = Vec::new();
        st.port = DEFAULT_SSH_PORT;
        assert(st.host@ =~= Seq::<char>::empty());
        assert(st.user@ =~= Seq::<char>::empty());
    } else if eq_text(key.as_slice(), "hostname") {
        st.host = crate::text::to_vec(value);
    } else if eq_text(key.as_slice(), "user") {
        st.user = crate::text::to_vec(value);
    } else if eq_text(key.as_slice(), "port") {
        st.port = match parse_unsigned_in(value, 65535) {
            Some(p) => p as u16,
            None => DEFAULT_SSH_PORT,
        };
    }
}

/// Parses the text of an OpenSSH config into its host entries: one per
/// alias of each `Host` block, in file order, skipping patterns such as
/// `Host *`.
pub fn parse_ssh_config_text(text: &str) -> (r: Vec<SshHostEntry>)
    ensures
        entries_view(r@) == ssh_config_entries(text@),
{
    let chars = str_chars(text);
    let nl = str_chars("\n");
    let mut st = ScanState {
        entries: Vec::new(),
        aliases: Vec::new(),
        host: Vec::new(),
        user: Vec::new(),
        port: DEFAULT_SSH_PORT,
    };
    assert(st.model().entries =~= Seq::<SshHostView>::empty());
    assert(st.model().block.aliases =~= Seq::<Seq<char>>::empty());
    assert(st.model().block.host =~= Seq::<char>::empty());
    assert(st.model().block.user =~= Seq::<char>::empty());
    let mut rest: &[char] = chars.as_slice();
    loop
        invariant_except_break
            scan_text(st.model(), rest@) == scan_text(scan_start(), text@),
        invariant
            nl@ == "\n"@,
        ensures
            st.model() == scan_text(scan_start(), text@),
        decreases rest@.len(),
    {
        match split_once_in(rest, nl.as_slice()) {
            None => {
                scan_line_in(&mut st, rest);
                break;
            },
            Some((line, after)) => {
                proof {
                    reveal_strlit("\n");
                    lemma_find_from_result(rest@, "\n"@, 0);
                }
                scan_line_in(&mut st, line);
                rest = after;
            },
        }
    }
    push_block(&mut st.entries, &st.aliases, st.host.as_slice(), st.user.as_slice(), st.port);
    st.entries
}

} // verus!
