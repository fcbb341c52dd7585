//! Annotation of OpenSSH stderr with the forward that a channel belongs to.
//!
//! ssh is started with `LogLevel=DEBUG1`; its debug lines reveal which
//! configured forward each channel serves. A later `channel N: open failed`
//! line is then annotated with that forward (and, for `-R`, the originator),
//! while the remaining debug chatter is suppressed.

use std::collections::HashMap;

use vstd::prelude::*;

use crate::config::{split_forward, split_forward_spec, ConnectionConfig, ForwardConfig, ForwardMode};
use crate::ssh::{flag_of, mode_flag};
use crate::text::{
    contains, contains_in, eq_chars, eq_text, extend_chars, extend_text, first_word,
    first_word_in, is_ws, is_whitespace, join_with, lower, lower_in, opt_view, parse_unsigned,
    parse_unsigned_in, rsplit_once, rsplit_once_in, split_once, split_once_in, starts_with,
    starts_with_in, str_chars, string_from, strings_view, to_vec, trim, trim_end_char,
    trim_end_char_in, trim_slice, trim_start_char, trim_start_char_in, digit_run, digit_run_end,
};

verus! {

broadcast use vstd::std_specs::hash::group_hash_axioms;

// ───────────────────────── configured forwards ─────────────────────────

/// A configured forward, split into its parts.
pub struct ForwardInfoView {
    pub mode: ForwardMode,
    pub raw: Seq<char>,
    pub listen_host: Option<Seq<char>>,
    pub listen_port: Option<Seq<char>>,
    pub target_host: Option<Seq<char>>,
    pub target_port: Option<Seq<char>>,
}

/// A configured forward, split into its parts.
pub struct ForwardInfo {
    pub mode: ForwardMode,
    pub raw: Vec<char>,
    pub listen_host: Option<Vec<char>>,
    pub listen_port: Option<Vec<char>>,
    pub target_host: Option<Vec<char>>,
    pub target_port: Option<Vec<char>>,
}

pub open spec fn ov(o: Option<Vec<char>>) -> Option<Seq<char>> {
    match o {
        Some(v) => Some(v@),
        None => None,
    }
}

fn clone_ov(o: &Option<Vec<char>>) -> (r: Option<Vec<char>>)
    ensures
        ov(r) == ov(*o),
{
    match o {
        Some(v) => Some(to_vec(v.as_slice())),
        None => None,
    }
}

impl View for ForwardInfo {
    type V = ForwardInfoView;

    open spec fn view(&self) -> ForwardInfoView {
        ForwardInfoView {
            mode: self.mode,
            raw: self.raw@,
            listen_host: ov(self.listen_host),
            listen_port: ov(self.listen_port),
            target_host: ov(self.target_host),
            target_port: ov(self.target_port),
        }
    }
}

impl ForwardInfo {
    fn duplicate(&self) -> (r: ForwardInfo)
        ensures
            r@ == self@,
    {
        ForwardInfo {
            mode: self.mode,
            raw: to_vec(self.raw.as_slice()),
            listen_host: clone_ov(&self.listen_host),
            listen_port: clone_ov(&self.listen_port),
            target_host: clone_ov(&self.target_host),
            target_port: clone_ov(&self.target_port),
        }
    }
}

fn clone_ofi(o: &Option<ForwardInfo>) -> (r: Option<ForwardInfo>)
    ensures
        ofi(r) == ofi(*o),
{
    match o {
        Some(f) => Some(f.duplicate()),
        None => None,
    }
}

pub open spec fn ofi(o: Option<ForwardInfo>) -> Option<ForwardInfoView> {
    match o {
        Some(f) => Some(f@),
        None => None,
    }
}

/// `[listen_host:]listen_port:target_host:target_port`, split; `None` for any
/// other shape (including a `-D` spec).
pub open spec fn parsed_forward(spec: Seq<char>) -> Option<
    (Option<Seq<char>>, Seq<char>, Seq<char>, Seq<char>),
> {
    let p = split_forward(spec);
    if p.len() == 3 && p[0].len() > 0 {
        Some((None, p[0], p[1], p[2]))
    } else if p.len() == 4 && p[1].len() > 0 {
        Some(
            (
                if p[0].len() == 0 {
                    None
                } else {
                    Some(p[0])
                },
                p[1],
                p[2],
                p[3],
            ),
        )
    } else {
        None
    }
}

/// What the annotator knows of a configured forward.
pub open spec fn forward_info_of(f: ForwardConfig) -> ForwardInfoView {
    let parsed = parsed_forward(f.forward@);
    ForwardInfoView {
        mode: f.mode,
        raw: f.forward@,
        listen_host: match parsed {
            Some(p) => p.0,
            None => None,
        },
        listen_port: match parsed {
            Some(p) => Some(p.1),
            None => None,
        },
        target_host: match parsed {
            Some(p) => Some(p.2),
            None => None,
        },
        target_port: match parsed {
            Some(p) => Some(p.3),
            None => None,
        },
    }
}

fn forward_info(f: &ForwardConfig) -> (r: ForwardInfo)
    ensures
        r@ == forward_info_of(*f),
{
    let parts = split_forward_spec(f.forward.as_str());
    let ghost p = split_forward(f.forward@);
    assert(strings_view(parts@) == p);
    assert(parts@.len() == p.len());
    let raw = str_chars(f.forward.as_str());
    if parts.len() == 3 && parts[0].as_str().unicode_len() > 0 {
        assert(p[0] == parts@[0]@);
        assert(p[1] == parts@[1]@);
        assert(p[2] == parts@[2]@);
        ForwardInfo {
            mode: f.mode,
            raw,
            listen_host: None,
            listen_port: Some(str_chars(parts[0].as_str())),
            target_host: Some(str_chars(parts[1].as_str())),
            target_port: Some(str_chars(parts[2].as_str())),
        }
    } else if parts.len() == 4 && parts[1].as_str().unicode_len() > 0 {
        assert(p[0] == parts@[0]@);
        assert(p[1] == parts@[1]@);
        assert(p[2] == parts@[2]@);
        assert(p[3] == parts@[3]@);
        let host = if parts[0].as_str().unicode_len() == 0 {
            None
        } else {
            Some(str_chars(parts[0].as_str()))
        };
        ForwardInfo {
            mode: f.mode,
            raw,
            listen_host: host,
            listen_port: Some(str_chars(parts[1].as_str())),
            target_host: Some(str_chars(parts[2].as_str())),
            target_port: Some(str_chars(parts[3].as_str())),
        }
    } else {
        ForwardInfo {
            mode: f.mode,
            raw,
            listen_host: None,
            listen_port: None,
            target_host: None,
            target_port: None,
        }
    }
}

/// `host:port`.
pub open spec fn endpoint(host: Seq<char>, port: Seq<char>) -> Seq<char> {
    host + seq![':'] + port
}

fn endpoint_of(host: &[char], port: &[char]) -> (r: Vec<char>)
    ensures
        r@ == endpoint(host@, port@),
{
    let mut v = to_vec(host);
    v.push(':');
    extend_chars(&mut v, port);
    v
}

/// `[host:]port` of the listening side.
pub open spec fn listen_display(f: ForwardInfoView) -> Option<Seq<char>> {
    match f.listen_port {
        None => None,
        Some(port) => match f.listen_host {
            Some(h) => if h.len() > 0 {
                Some(endpoint(h, port))
            } else {
                Some(port)
            },
            None => Some(port),
        },
    }
}

/// `host:port` of the target side.
pub open spec fn target_display(f: ForwardInfoView) -> Option<Seq<char>> {
    match (f.target_host, f.target_port) {
        (Some(h), Some(p)) => Some(endpoint(h, p)),
        _ => None,
    }
}

/// `-L 8080 -> 127.0.0.1:8080`, or the flag and the raw spec.
pub open spec fn display(f: ForwardInfoView) -> Seq<char> {
    match (listen_display(f), target_display(f)) {
        (Some(l), Some(t)) => mode_flag(f.mode) + " "@ + l + " -> "@ + t,
        _ => mode_flag(f.mode) + " "@ + f.raw,
    }
}

fn listen_display_of(f: &ForwardInfo) -> (r: Option<Vec<char>>)
    ensures
        ov(r) == listen_display(f@),
{
    match &f.listen_port {
        None => None,
        Some(port) => match &f.listen_host {
            Some(h) => if h.len() > 0 {
                Some(endpoint_of(h.as_slice(), port.as_slice()))
            } else {
                Some(to_vec(port.as_slice()))
            },
            None => Some(to_vec(port.as_slice())),
        },
    }
}

fn target_display_of(f: &ForwardInfo) -> (r: Option<Vec<char>>)
    ensures
        ov(r) == target_display(f@),
{
    match (&f.target_host, &f.target_port) {
        (Some(h), Some(p)) => Some(endpoint_of(h.as_slice(), p.as_slice())),
        _ => None,
    }
}

fn display_of(f: &ForwardInfo) -> (r: Vec<char>)
    ensures
        r@ == display(f@),
{
    let mut v = str_chars(flag_of(f.mode));
    extend_text(&mut v, " ");
    match (listen_display_of(f), target_display_of(f)) {
        (Some(l), Some(t)) => {
            extend_chars(&mut v, l.as_slice());
            extend_text(&mut v, " -> ");
            extend_chars(&mut v, t.as_slice());
        },
        _ => {
            extend_chars(&mut v, f.raw.as_slice());
        },
    }
    v
}

// ───────────────────────── hosts ─────────────────────────

/// Host name compared case-insensitively, without spaces or IPv6 brackets.
pub open spec fn normalize_host(h: Seq<char>) -> Seq<char> {
    lower(trim_end_char(trim_start_char(trim(h), '['), ']'))
}

pub open spec fn is_loopback_name(h: Seq<char>) -> bool {
    h == "localhost"@ || h == "127.0.0.1"@ || h == "::1"@
}

/// Same host, or both loopback names.
pub open spec fn hosts_match(l: Seq<char>, r: Seq<char>) -> bool {
    normalize_host(l) == normalize_host(r) || (is_loopback_name(normalize_host(l))
        && is_loopback_name(normalize_host(r)))
}

/// `*`, `0.0.0.0` or `::`.
pub open spec fn is_wildcard_host(h: Seq<char>) -> bool {
    let n = normalize_host(h);
    n == "*"@ || n == "0.0.0.0"@ || n == "::"@
}

fn normalize(h: &[char]) -> (r: Vec<char>)
    ensures
        r@ == normalize_host(h@),
{
    let t = trim_slice(h);
    let t = trim_start_char_in(t, '[');
    let t = trim_end_char_in(t, ']');
    lower_in(t)
}

fn loopback(h: &[char]) -> (r: bool)
    ensures
        r == is_loopback_name(h@),
{
    eq_text(h, "localhost") || eq_text(h, "127.0.0.1") || eq_text(h, "::1")
}

fn same_host(l: &[char], r: &[char]) -> (b: bool)
    ensures
        b == hosts_match(l@, r@),
{
    let nl = normalize(l);
    let nr = normalize(r);
    eq_chars(nl.as_slice(), nr.as_slice()) || (loopback(nl.as_slice()) && loopback(nr.as_slice()))
}

fn wildcard(h: &[char]) -> (r: bool)
    ensures
        r == is_wildcard_host(h@),
{
    let n = normalize(h);
    eq_text(n.as_slice(), "*") || eq_text(n.as_slice(), "0.0.0.0") || eq_text(n.as_slice(), "::")
}

// ───────────────────────── matching ─────────────────────────

pub open spec fn opt_is(o: Option<Seq<char>>, s: Seq<char>) -> bool {
    o == Some(s)
}

/// A `-L` forward whose listen port, target host and target port all agree.
pub open spec fn matches_local_request(f: ForwardInfoView, lp: Seq<char>, th: Seq<char>, tp: Seq<
    char,
>) -> bool {
    &&& f.mode == ForwardMode::Local
    &&& opt_is(f.listen_port, lp)
    &&& opt_is(f.target_port, tp)
    &&& (f.target_host matches Some(h) && hosts_match(h, th))
}

/// A `-L` forward on the same listen port.
pub open spec fn matches_local_port(f: ForwardInfoView, lp: Seq<char>) -> bool {
    f.mode == ForwardMode::Local && opt_is(f.listen_port, lp)
}

/// A `-R` forward on the same listen port whose bind host, if specific, agrees.
pub open spec fn matches_remote_request(f: ForwardInfoView, lh: Seq<char>, lp: Seq<char>) -> bool {
    &&& f.mode == ForwardMode::Remote
    &&& opt_is(f.listen_port, lp)
    &&& match f.listen_host {
        Some(ch) => if ch.len() > 0 && !is_wildcard_host(ch) {
            hosts_match(ch, lh)
        } else {
            true
        },
        None => true,
    }
}

/// A forward aimed at the same target host and port.
pub open spec fn matches_target(f: ForwardInfoView, th: Seq<char>, tp: Seq<char>) -> bool {
    opt_is(f.target_port, tp) && (f.target_host matches Some(h) && hosts_match(h, th))
}

fn opt_eq(o: &Option<Vec<char>>, s: &[char]) -> (r: bool)
    ensures
        r == opt_is(ov(*o), s@),
{
    match o {
        Some(v) => eq_chars(v.as_slice(), s),
        None => false,
    }
}

fn local_request_matches(f: &ForwardInfo, lp: &[char], th: &[char], tp: &[char]) -> (r: bool)
    ensures
        r == matches_local_request(f@, lp@, th@, tp@),
{
    f.mode == ForwardMode::Local && opt_eq(&f.listen_port, lp) && opt_eq(&f.target_port, tp)
        && match &f.target_host {
        Some(h) => same_host(h.as_slice(), th),
        None => false,
    }
}

fn local_port_matches(f: &ForwardInfo, lp: &[char]) -> (r: bool)
    ensures
        r == matches_local_port(f@, lp@),
{
    f.mode == ForwardMode::Local && opt_eq(&f.listen_port, lp)
}

fn remote_request_matches(f: &ForwardInfo, lh: &[char], lp: &[char]) -> (r: bool)
    ensures
        r == matches_remote_request(f@, lh@, lp@),
{
    if !(f.mode == ForwardMode::Remote && opt_eq(&f.listen_port, lp)) {
        return false;
    }
    match &f.listen_host {
        Some(ch) => if ch.len() > 0 && !wildcard(ch.as_slice()) {
            same_host(ch.as_slice(), lh)
        } else {
            true
        },
        None => true,
    }
}

fn target_matches(f: &ForwardInfo, th: &[char], tp: &[char]) -> (r: bool)
    ensures
        r == matches_target(f@, th@, tp@),
{
    opt_eq(&f.target_port, tp) && match &f.target_host {
        Some(h) => same_host(h.as_slice(), th),
        None => false,
    }
}

/// The first forward satisfying `p`.
pub open spec fn first_with(fs: Seq<ForwardInfoView>, p: spec_fn(ForwardInfoView) -> bool) -> Option<
    ForwardInfoView,
>
    decreases fs.len(),
{
    if fs.len() == 0 {
        None
    } else if p(fs[0]) {
        Some(fs[0])
    } else {
        first_with(fs.drop_first(), p)
    }
}

pub open spec fn views(fs: Seq<ForwardInfo>) -> Seq<ForwardInfoView> {
    fs.map_values(|f: ForwardInfo| f@)
}

/// The configured forward that a `-L` request belongs to: an exact match, or
/// else the first `-L` on the same listen port.
pub open spec fn find_local(fs: Seq<ForwardInfoView>, lp: Seq<char>, th: Seq<char>, tp: Seq<char>) -> Option<
    ForwardInfoView,
> {
    match first_with(fs, |f: ForwardInfoView| matches_local_request(f, lp, th, tp)) {
        Some(f) => Some(f),
        None => first_with(fs, |f: ForwardInfoView| matches_local_port(f, lp)),
    }
}

pub open spec fn find_remote(fs: Seq<ForwardInfoView>, lh: Seq<char>, lp: Seq<char>) -> Option<
    ForwardInfoView,
> {
    first_with(fs, |f: ForwardInfoView| matches_remote_request(f, lh, lp))
}

pub open spec fn find_by_target(fs: Seq<ForwardInfoView>, th: Seq<char>, tp: Seq<char>) -> Option<
    ForwardInfoView,
> {
    first_with(fs, |f: ForwardInfoView| matches_target(f, th, tp))
}

proof fn lemma_first_with_step(fs: Seq<ForwardInfoView>, p: spec_fn(ForwardInfoView) -> bool, i: int)
    requires
        0 <= i < fs.len(),
        !p(fs[i]),
    ensures
        first_with(fs.subrange(i, fs.len() as int), p) == first_with(
            fs.subrange(i + 1, fs.len() as int),
            p,
        ),
{
    assert(fs.subrange(i, fs.len() as int).drop_first() =~= fs.subrange(i + 1, fs.len() as int));
}

proof fn lemma_first_with_hit(fs: Seq<ForwardInfoView>, p: spec_fn(ForwardInfoView) -> bool, i: int)
    requires
        0 <= i < fs.len(),
        p(fs[i]),
    ensures
        first_with(fs.subrange(i, fs.len() as int), p) == Some(fs[i]),
{
    assert(fs.subrange(i, fs.len() as int)[0] == fs[i]);
}

/// Which search a lookup performs.
enum Search<'a> {
    LocalRequest(&'a [char], &'a [char], &'a [char]),
    LocalPort(&'a [char]),
    RemoteRequest(&'a [char], &'a [char]),
    Target(&'a [char], &'a [char]),
}

spec fn search_pred(s: Search) -> spec_fn(ForwardInfoView) -> bool {
    match s {
        Search::LocalRequest(lp, th, tp) => |f: ForwardInfoView|
            matches_local_request(f, lp@, th@, tp@),
        Search::LocalPort(lp) => |f: ForwardInfoView| matches_local_port(f, lp@),
        Search::RemoteRequest(lh, lp) => |f: ForwardInfoView| matches_remote_request(f, lh@, lp@),
        Search::Target(th, tp) => |f: ForwardInfoView| matches_target(f, th@, tp@),
    }
}

fn test(f: &ForwardInfo, s: &Search) -> (r: bool)
    ensures
        r == (search_pred(*s))(f@),
{
    match s {
        Search::LocalRequest(lp, th, tp) => local_request_matches(f, lp, th, tp),
        Search::LocalPort(lp) => local_port_matches(f, lp),
        Search::RemoteRequest(lh, lp) => remote_request_matches(f, lh, lp),
        Search::Target(th, tp) => target_matches(f, th, tp),
    }
}

fn first_matching(fs: &Vec<ForwardInfo>, s: &Search) -> (r: Option<ForwardInfo>)
    ensures
        ofi(r) == first_with(views(fs@), search_pred(*s)),
{
    let ghost vs = views(fs@);
    let n = fs.len();
    let mut i: usize = 0;
    assert(vs.subrange(0, vs.len() as int) =~= vs);
    while i < n
        invariant
            i <= n,
            n == fs@.len(),
            vs == views(fs@),
            first_with(vs, search_pred(*s)) == first_with(
                vs.subrange(i as int, vs.len() as int),
                search_pred(*s),
            ),
        decreases n - i,
    {
        if test(&fs[i], s) {
            proof {
                lemma_first_with_hit(vs, search_pred(*s), i as int);
            }
            return Some(fs[i].duplicate());
        }
        proof {
            lemma_first_with_step(vs, search_pred(*s), i as int);
        }
        i = i + 1;
    }
    assert(vs.subrange(n as int, vs.len() as int).len() == 0);
    None
}

fn find_local_forward(fs: &Vec<ForwardInfo>, lp: &[char], th: &[char], tp: &[char]) -> (r: Option<
    ForwardInfo,
>)
    ensures
        ofi(r) == find_local(views(fs@), lp@, th@, tp@),
{
    let exact = Search::LocalRequest(lp, th, tp);
    assert(search_pred(exact) == (|f: ForwardInfoView| matches_local_request(f, lp@, th@, tp@)));
    match first_matching(fs, &exact) {
        Some(f) => Some(f),
        None => {
            let loose = Search::LocalPort(lp);
            assert(search_pred(loose) == (|f: ForwardInfoView| matches_local_port(f, lp@)));
            first_matching(fs, &loose)
        },
    }
}

fn find_remote_forward(fs: &Vec<ForwardInfo>, lh: &[char], lp: &[char]) -> (r: Option<ForwardInfo>)
    ensures
        ofi(r) == find_remote(views(fs@), lh@, lp@),
{
    let s = Search::RemoteRequest(lh, lp);
    assert(search_pred(s) == (|f: ForwardInfoView| matches_remote_request(f, lh@, lp@)));
    first_matching(fs, &s)
}

fn find_forward_by_target(fs: &Vec<ForwardInfo>, th: &[char], tp: &[char]) -> (r: Option<
    ForwardInfo,
>)
    ensures
        ofi(r) == find_by_target(views(fs@), th@, tp@),
{
    let s = Search::Target(th, tp);
    assert(search_pred(s) == (|f: ForwardInfoView| matches_target(f, th@, tp@)));
    first_matching(fs, &s)
}

// ───────────────────────── reading ssh's debug lines ─────────────────────────

/// `N` in `channel N:`, when `N` is a `u32`.
pub open spec fn channel_number(line: Seq<char>) -> Option<u32> {
    match split_once(line, "channel "@) {
        None => None,
        Some((_, rest)) => {
            let d = digit_run_end(rest, 0);
            if d == 0 || !starts_with(rest.subrange(d, rest.len() as int), ":"@) {
                None
            } else {
                match parse_unsigned(rest.subrange(0, d), 4294967295) {
                    Some(v) => Some(v as u32),
                    None => None,
                }
            }
        },
    }
}

/// `channel N: open failed: ...`
pub open spec fn channel_open_failed(line: Seq<char>) -> Option<u32> {
    if contains(line, ": open failed:"@) {
        channel_number(line)
    } else {
        None
    }
}

/// `channel N: free: ...`
pub open spec fn channel_free(line: Seq<char>) -> Option<u32> {
    if contains(line, ": free:"@) {
        channel_number(line)
    } else {
        None
    }
}

/// `channel N: new [kind]` (or `new kind`).
pub open spec fn channel_new(line: Seq<char>, kind: Seq<char>) -> Option<u32> {
    if contains(line, ": new ["@ + kind + "]"@) || contains(line, ": new "@ + kind) {
        channel_number(line)
    } else {
        None
    }
}

/// A line that numbers a channel and announces it as `new <kind>` or
/// `new [<kind>]` opens that channel for the kind; a line without either
/// announcement opens none.
pub proof fn lemma_channel_new_recognises_both_forms(line: Seq<char>, kind: Seq<char>)
    ensures
        (contains(line, ": new "@ + kind) || contains(line, ": new ["@ + kind + "]"@))
            ==> channel_new(line, kind) == channel_number(line),
        !(contains(line, ": new "@ + kind) || contains(line, ": new ["@ + kind + "]"@))
            ==> channel_new(line, kind) is None,
{
}

/// Characters that end a token: `:`, `,`, `)` and whitespace.
pub open spec fn is_token_sep(c: char) -> bool {
    c == ':' || c == ',' || c == ')' || is_ws(c)
}

/// First position at or after `i` holding a token separator.
pub open spec fn sep_end(s: Seq<char>, i: int) -> int
    decreases s.len() - i,
{
    if 0 <= i < s.len() && !is_token_sep(s[i]) {
        sep_end(s, i + 1)
    } else {
        i
    }
}

/// The first token of `text`, without trailing dots; `None` when empty.
pub open spec fn token(text: Seq<char>) -> Option<Seq<char>> {
    let t = trim(text);
    let tok = trim_end_char(t.subrange(0, sep_end(t, 0)), '.');
    if tok.len() == 0 {
        None
    } else {
        Some(tok)
    }
}

/// `debug1: Connection to port L forwarding to H port P requested.`
pub open spec fn local_request(line: Seq<char>) -> Option<(Seq<char>, Seq<char>, Seq<char>)> {
    match split_once(line, "Connection to port "@) {
        None => None,
        Some((_, rest)) => match split_once(rest, " forwarding to "@) {
            None => None,
            Some((lp, rest2)) => match split_once(rest2, " port "@) {
                None => None,
                Some((th, rest3)) => match token(rest3) {
                    None => None,
                    Some(tp) => Some((trim(lp), trim(th), tp)),
                },
            },
        },
    }
}

/// `H port P`.
pub open spec fn host_port_phrase(text: Seq<char>) -> Option<(Seq<char>, Seq<char>)> {
    match split_once(trim(text), " port "@) {
        None => None,
        Some((h, p)) => match token(p) {
            None => None,
            Some(tp) => Some((trim(h), tp)),
        },
    }
}

/// `client_request_forwarded_tcpip: listen H port P, originator OH port OP`.
pub open spec fn remote_request(line: Seq<char>) -> Option<
    (Seq<char>, Seq<char>, Seq<char>, Seq<char>),
> {
    match split_once(line, "client_request_forwarded_tcpip: listen "@) {
        None => None,
        Some((_, rest)) => match split_once(rest, ", originator "@) {
            None => None,
            Some((listen, origin)) => match host_port_phrase(listen) {
                None => None,
                Some((lh, lp)) => match host_port_phrase(origin) {
                    None => None,
                    Some((oh, op)) => Some((lh, lp, oh, op)),
                },
            },
        },
    }
}

/// `connect_next: start for host H ([addr]:P)` or `... port P`.
pub open spec fn connect_next(line: Seq<char>) -> Option<(Seq<char>, Seq<char>)> {
    match split_once(line, "connect_next: start for host "@) {
        None => None,
        Some((_, rest)) => match first_word(rest) {
            None => None,
            Some(host) => {
                let via_colon = match rsplit_once(rest, ":"@) {
                    Some((_, p)) => token(p),
                    None => None,
                };
                match via_colon {
                    Some(port) => Some((host, port)),
                    None => match rsplit_once(rest, " port "@) {
                        None => None,
                        Some((_, p)) => match token(p) {
                            None => None,
                            Some(port) => Some((host, port)),
                        },
                    },
                }
            },
        },
    }
}

/// `connect_to H port P: failed.`
pub open spec fn connect_to_failure(line: Seq<char>) -> Option<(Seq<char>, Seq<char>)> {
    if !contains(line, ": failed"@) {
        None
    } else {
        match split_once(line, "connect_to "@) {
            None => None,
            Some((_, rest)) => match split_once(rest, " port "@) {
                None => None,
                Some((h, p)) => match token(p) {
                    None => None,
                    Some(tp) => Some((trim(h), tp)),
                },
            },
        }
    }
}

/// `debug1:` to `debug3:` lines.
pub open spec fn is_debug(line: Seq<char>) -> bool {
    starts_with(line, "debug1:"@) || starts_with(line, "debug2:"@) || starts_with(line, "debug3:"@)
}

fn parse_channel_number(line: &[char]) -> (r: Option<u32>)
    ensures
        r == channel_number(line@),
{
    let pat = str_chars("channel ");
    match split_once_in(line, pat.as_slice()) {
        None => None,
        Some((_, rest)) => {
            let d = digit_run(rest);
            let colon = str_chars(":");
            if d == 0 || !starts_with_in(&rest[d..rest.len()], colon.as_slice()) {
                return None;
            }
            match parse_unsigned_in(&rest[0..d], 4294967295) {
                Some(v) => Some(v as u32),
                None => None,
            }
        },
    }
}

fn parse_channel_open_failed(line: &[char]) -> (r: Option<u32>)
    ensures
        r == channel_open_failed(line@),
{
    let pat = str_chars(": open failed:");
    if contains_in(line, pat.as_slice()) {
        parse_channel_number(line)
    } else {
        None
    }
}

fn parse_channel_free(line: &[char]) -> (r: Option<u32>)
    ensures
        r == channel_free(line@),
{
    let pat = str_chars(": free:");
    if contains_in(line, pat.as_slice()) {
        parse_channel_number(line)
    } else {
        None
    }
}

fn parse_channel_new_kind(line: &[char], kind: &str) -> (r: Option<u32>)
    ensures
        r == channel_new(line@, kind@),
{
    let mut bracketed = str_chars(": new [");
    extend_text(&mut bracketed, kind);
    extend_text(&mut bracketed, "]");
    let mut plain = str_chars(": new ");
    extend_text(&mut plain, kind);
    if contains_in(line, bracketed.as_slice()) || contains_in(line, plain.as_slice()) {
        parse_channel_number(line)
    } else {
        None
    }
}

fn token_sep(c: char) -> (r: bool)
    ensures
        r == is_token_sep(c),
{
    c == ':' || c == ',' || c == ')' || is_whitespace(c)
}

fn take_token(text: &[char]) -> (r: Option<Vec<char>>)
    ensures
        ov(r) == token(text@),
{
    let t = trim_slice(text);
    let n = t.len();
    let mut e: usize = 0;
    while e < n && !token_sep(t[e])
        invariant
            e <= n,
            n == t@.len(),
            sep_end(t@, 0) == sep_end(t@, e as int),
        decreases n - e,
    {
        e = e + 1;
    }
    let tok = trim_end_char_in(&t[0..e], '.');
    if tok.len() == 0 {
        None
    } else {
        Some(to_vec(tok))
    }
}

fn parse_local_forward_request(line: &[char]) -> (r: Option<(Vec<char>, Vec<char>, Vec<char>)>)
    ensures
        match r {
            Some((a, b, c)) => local_request(line@) == Some((a@, b@, c@)),
            None => local_request(line@) is None,
        },
{
    let p1 = str_chars("Connection to port ");
    let p2 = str_chars(" forwarding to ");
    let p3 = str_chars(" port ");
    let (_, rest) = match split_once_in(line, p1.as_slice()) {
        Some(x) => x,
        None => return None,
    };
    let (lp, rest2) = match split_once_in(rest, p2.as_slice()) {
        Some(x) => x,
        None => return None,
    };
    let (th, rest3) = match split_once_in(rest2, p3.as_slice()) {
        Some(x) => x,
        None => return None,
    };
    match take_token(rest3) {
        None => None,
        Some(tp) => Some((to_vec(trim_slice(lp)), to_vec(trim_slice(th)), tp)),
    }
}

fn parse_host_port_phrase(text: &[char]) -> (r: Option<(Vec<char>, Vec<char>)>)
    ensures
        match r {
            Some((a, b)) => host_port_phrase(text@) == Some((a@, b@)),
            None => host_port_phrase(text@) is None,
        },
{
    let pat = str_chars(" port ");
    let t = trim_slice(text);
    match split_once_in(t, pat.as_slice()) {
        None => None,
        Some((h, p)) => match take_token(p) {
            None => None,
            Some(tp) => Some((to_vec(trim_slice(h)), tp)),
        },
    }
}

fn parse_remote_forward_request(line: &[char]) -> (r: Option<
    (Vec<char>, Vec<char>, Vec<char>, Vec<char>),
>)
    ensures
        match r {
            Some((a, b, c, d)) => remote_request(line@) == Some((a@, b@, c@, d@)),
            None => remote_request(line@) is None,
        },
{
    let p1 = str_chars("client_request_forwarded_tcpip: listen ");
    let p2 = str_chars(", originator ");
    let (_, rest) = match split_once_in(line, p1.as_slice()) {
        Some(x) => x,
        None => return None,
    };
    let (listen, origin) = match split_once_in(rest, p2.as_slice()) {
        Some(x) => x,
        None => return None,
    };
    let (lh, lp) = match parse_host_port_phrase(listen) {
        Some(x) => x,
        None => return None,
    };
    let (oh, op) = match parse_host_port_phrase(origin) {
        Some(x) => x,
        None => return None,
    };
    Some((lh, lp, oh, op))
}

fn parse_connect_next_start(line: &[char]) -> (r: Option<(Vec<char>, Vec<char>)>)
    ensures
        match r {
            Some((a, b)) => connect_next(line@) == Some((a@, b@)),
            None => connect_next(line@) is None,
        },
{
    let p1 = str_chars("connect_next: start for host ");
    let (_, rest) = match split_once_in(line, p1.as_slice()) {
        Some(x) => x,
        None => return None,
    };
    let host = match first_word_in(rest) {
        Some(w) => to_vec(w),
        None => return None,
    };
    let colon = str_chars(":");
    let via_colon = match rsplit_once_in(rest, colon.as_slice()) {
        Some((_, p)) => take_token(p),
        None => None,
    };
    if let Some(port) = via_colon {
        return Some((host, port));
    }
    let p2 = str_chars(" port ");
    match rsplit_once_in(rest, p2.as_slice()) {
        None => None,
        Some((_, p)) => match take_token(p) {
            None => None,
            Some(port) => Some((host, port)),
        },
    }
}

fn parse_connect_to_failure(line: &[char]) -> (r: Option<(Vec<char>, Vec<char>)>)
    ensures
        match r {
            Some((a, b)) => connect_to_failure(line@) == Some((a@, b@)),
            None => connect_to_failure(line@) is None,
        },
{
    let failed = str_chars(": failed");
    if !contains_in(line, failed.as_slice()) {
        return None;
    }
    let p1 = str_chars("connect_to ");
    let p2 = str_chars(" port ");
    let (_, rest) = match split_once_in(line, p1.as_slice()) {
        Some(x) => x,
        None => return None,
    };
    let (h, p) = match split_once_in(rest, p2.as_slice()) {
        Some(x) => x,
        None => return None,
    };
    match take_token(p) {
        None => None,
        Some(tp) => Some((to_vec(trim_slice(h)), tp)),
    }
}

fn is_debug_line(line: &[char]) -> (r: bool)
    ensures
        r == is_debug(line@),
{
    let d1 = str_chars("debug1:");
    let d2 = str_chars("debug2:");
    let d3 = str_chars("debug3:");
    starts_with_in(line, d1.as_slice()) || starts_with_in(line, d2.as_slice()) || starts_with_in(
        line,
        d3.as_slice(),
    )
}

// ───────────────────────── channels ─────────────────────────

/// What is known of one ssh channel.
pub struct ChannelInfoView {
    pub mode: ForwardMode,
    pub listen: Option<Seq<char>>,
    pub target: Option<Seq<char>>,
    pub originator: Option<Seq<char>>,
    pub forward: Option<ForwardInfoView>,
}

/// What is known of one ssh channel.
pub struct ChannelInfo {
    pub mode: ForwardMode,
    pub listen: Option<Vec<char>>,
    pub target: Option<Vec<char>>,
    pub originator: Option<Vec<char>>,
    pub forward: Option<ForwardInfo>,
}

impl View for ChannelInfo {
    type V = ChannelInfoView;

    open spec fn view(&self) -> ChannelInfoView {
        ChannelInfoView {
            mode: self.mode,
            listen: ov(self.listen),
            target: ov(self.target),
            originator: ov(self.originator),
            forward: ofi(self.forward),
        }
    }
}

impl ChannelInfo {
    fn duplicate(&self) -> (r: ChannelInfo)
        ensures
            r@ == self@,
    {
        ChannelInfo {
            mode: self.mode,
            listen: clone_ov(&self.listen),
            target: clone_ov(&self.target),
            originator: clone_ov(&self.originator),
            forward: clone_ofi(&self.forward),
        }
    }
}

/// The forward text of a channel whose forward was not identified.
pub open spec fn fallback_text(c: ChannelInfoView) -> Seq<char> {
    mode_flag(c.mode) + match (c.listen, c.target) {
        (Some(l), Some(t)) => " "@ + l + " -> "@ + t,
        (Some(l), None) => " "@ + l + " -> ?"@,
        (None, Some(t)) => " ? -> "@ + t,
        (None, None) => " ?"@,
    }
}

/// `forward=...`, then `; originator=...` when known.
pub open spec fn describe(c: ChannelInfoView) -> Seq<char> {
    "forward="@ + match c.forward {
        Some(f) => display(f),
        None => fallback_text(c),
    } + match c.originator {
        Some(o) => "; originator="@ + o,
        None => Seq::empty(),
    }
}

fn describe_channel(c: &ChannelInfo) -> (r: Vec<char>)
    ensures
        r@ == describe(c@),
{
    let mut v = str_chars("forward=");
    match &c.forward {
        Some(f) => {
            let d = display_of(f);
            extend_chars(&mut v, d.as_slice());
        },
        None => {
            extend_text(&mut v, flag_of(c.mode));
            match (&c.listen, &c.target) {
                (Some(l), Some(t)) => {
                    extend_text(&mut v, " ");
                    extend_chars(&mut v, l.as_slice());
                    extend_text(&mut v, " -> ");
                    extend_chars(&mut v, t.as_slice());
                },
                (Some(l), None) => {
                    extend_text(&mut v, " ");
                    extend_chars(&mut v, l.as_slice());
                    extend_text(&mut v, " -> ?");
                },
                (None, Some(t)) => {
                    extend_text(&mut v, " ? -> ");
                    extend_chars(&mut v, t.as_slice());
                },
                (None, None) => {
                    extend_text(&mut v, " ?");
                },
            }
        },
    }
    if let Some(o) = &c.originator {
        extend_text(&mut v, "; originator=");
        extend_chars(&mut v, o.as_slice());
    }
    assert(v@ =~= describe(c@));
    v
}

/// The configured forwards, each displayed, joined by `, `; `none` if empty.
pub open spec fn forward_list(fs: Seq<ForwardInfoView>) -> Seq<char> {
    if fs.len() == 0 {
        "none"@
    } else {
        join_with(fs.map_values(|f: ForwardInfoView| display(f)), ", "@)
    }
}

fn describe_forward_list(fs: &Vec<ForwardInfo>) -> (r: Vec<char>)
    ensures
        r@ == forward_list(views(fs@)),
{
    let ghost vs = views(fs@);
    let ghost ds = vs.map_values(|f: ForwardInfoView| display(f));
    let n = fs.len();
    if n == 0 {
        return str_chars("none");
    }
    let mut v = display_of(&fs[0]);
    let mut i: usize = 1;
    assert(ds.subrange(0, 1) =~= seq![ds[0]]);
    while i < n
        invariant
            1 <= i <= n,
            n == fs@.len(),
            vs == views(fs@),
            ds == vs.map_values(|f: ForwardInfoView| display(f)),
            v@ == join_with(ds.subrange(0, i as int), ", "@),
        decreases n - i,
    {
        extend_text(&mut v, ", ");
        let d = display_of(&fs[i]);
        extend_chars(&mut v, d.as_slice());
        assert(ds.subrange(0, i + 1).drop_last() =~= ds.subrange(0, i as int));
        i = i + 1;
    }
    assert(ds.subrange(0, n as int) =~= ds);
    v
}

/// The configured forwards of a connection, displayed as in the annotations.
pub open spec fn configured_forwards_text(c: ConnectionConfig) -> Seq<char> {
    forward_list(c.forwards@.map_values(|f: ForwardConfig| forward_info_of(f)))
}

fn forward_infos(c: &ConnectionConfig) -> (r: Vec<ForwardInfo>)
    ensures
        views(r@) == c.forwards@.map_values(|f: ForwardConfig| forward_info_of(f)),
{
    let n = c.forwards.len();
    let mut r: Vec<ForwardInfo> = Vec::new();
    let mut i: usize = 0;
    while i < n
        invariant
            i <= n,
            n == c.forwards@.len(),
            views(r@) == c.forwards@.subrange(0, i as int).map_values(
                |f: ForwardConfig| forward_info_of(f),
            ),
        decreases n - i,
    {
        let ghost before = r@;
        let fi = forward_info(&c.forwards[i]);
        r.push(fi);
        assert(views(r@) =~= views(before).push(fi@));
        assert(c.forwards@.subrange(0, i + 1) =~= c.forwards@.subrange(0, i as int).push(
            c.forwards@[i as int],
        ));
        assert(views(r@) =~= c.forwards@.subrange(0, i + 1).map_values(
            |f: ForwardConfig| forward_info_of(f),
        ));
        i = i + 1;
    }
    assert(c.forwards@.subrange(0, n as int) =~= c.forwards@);
    r
}

/// `-L 8080 -> 127.0.0.1:8080, -R 10022 -> 127.0.0.1:22`, as logged when ssh starts.
pub fn describe_configured_forwards(connection: &ConnectionConfig) -> (r: String)
    ensures
        r@ == configured_forwards_text(*connection),
{
    let fs = forward_infos(connection);
    let v = describe_forward_list(&fs);
    string_from(v.as_slice())
}

// ───────────────────────── the annotator ─────────────────────────

/// Everything the annotator has learnt so far.
pub struct AnnotatorView {
    pub forwards: Seq<ForwardInfoView>,
    pub channels: Map<u32, ChannelInfoView>,
    pub pending_local: Option<ChannelInfoView>,
    pub pending_remote: Option<ChannelInfoView>,
    pub last_forwarded: Option<u32>,
}

pub open spec fn oci(o: Option<ChannelInfo>) -> Option<ChannelInfoView> {
    match o {
        Some(c) => Some(c@),
        None => None,
    }
}

/// The state of a fresh annotator for a connection.
pub open spec fn initial_annotator(c: ConnectionConfig) -> AnnotatorView {
    AnnotatorView {
        forwards: c.forwards@.map_values(|f: ForwardConfig| forward_info_of(f)),
        channels: Map::empty(),
        pending_local: None,
        pending_remote: None,
        last_forwarded: None,
    }
}

/// `channel N: free`: forget the channel.
pub open spec fn learn_free(st: AnnotatorView, line: Seq<char>) -> AnnotatorView {
    match channel_free(line) {
        Some(ch) => AnnotatorView {
            channels: st.channels.remove(ch),
            last_forwarded: if st.last_forwarded == Some(ch) {
                None
            } else {
                st.last_forwarded
            },
            ..st
        },
        None => st,
    }
}

/// A `-L` connection request: remember it until its channel is created.
pub open spec fn learn_local(st: AnnotatorView, line: Seq<char>) -> AnnotatorView {
    match local_request(line) {
        Some((lp, th, tp)) => {
            let f = find_local(st.forwards, lp, th, tp);
            let listen = match f {
                Some(fi) => match listen_display(fi) {
                    Some(l) => l,
                    None => lp,
                },
                None => lp,
            };
            AnnotatorView {
                pending_local: Some(
                    ChannelInfoView {
                        mode: ForwardMode::Local,
                        listen: Some(listen),
                        target: Some(endpoint(th, tp)),
                        originator: None,
                        forward: f,
                    },
                ),
                ..st
            }
        },
        None => st,
    }
}

/// `new [direct-tcpip]`: the pending `-L` request gets its channel number.
pub open spec fn learn_direct(st: AnnotatorView, line: Seq<char>) -> AnnotatorView {
    match channel_new(line, "direct-tcpip"@) {
        Some(ch) => match st.pending_local {
            Some(info) => AnnotatorView {
                channels: st.channels.insert(ch, info),
                pending_local: None,
                ..st
            },
            None => st,
        },
        None => st,
    }
}

/// A `-R` connection arriving from the server: remember it.
pub open spec fn learn_remote(st: AnnotatorView, line: Seq<char>) -> AnnotatorView {
    match remote_request(line) {
        Some((lh, lp, oh, op)) => {
            let f = find_remote(st.forwards, lh, lp);
            let listen = match f {
                Some(fi) => match listen_display(fi) {
                    Some(l) => l,
                    None => endpoint(lh, lp),
                },
                None => endpoint(lh, lp),
            };
            let target = match f {
                Some(fi) => target_display(fi),
                None => None,
            };
            AnnotatorView {
                pending_remote: Some(
                    ChannelInfoView {
                        mode: ForwardMode::Remote,
                        listen: Some(listen),
                        target: target,
                        originator: Some(endpoint(oh, op)),
                        forward: f,
                    },
                ),
                ..st
            }
        },
        None => st,
    }
}

/// The target ssh actually connects to; the forward is kept if already known.
pub open spec fn retarget(c: ChannelInfoView, target: Seq<char>, f: Option<ForwardInfoView>) -> ChannelInfoView {
    ChannelInfoView {
        target: Some(target),
        forward: if c.forward is None {
            f
        } else {
            c.forward
        },
        ..c
    }
}

/// `connect_next`: the pending `-R` request and the last forwarded channel
/// learn their target.
pub open spec fn learn_connect(st: AnnotatorView, line: Seq<char>) -> AnnotatorView {
    match connect_next(line) {
        Some((th, tp)) => {
            let t = endpoint(th, tp);
            let f = find_by_target(st.forwards, th, tp);
            let st1 = AnnotatorView {
                pending_remote: match st.pending_remote {
                    Some(info) => Some(retarget(info, t, f)),
                    None => None,
                },
                ..st
            };
            match st1.last_forwarded {
                Some(ch) => if st1.channels.contains_key(ch) {
                    AnnotatorView {
                        channels: st1.channels.insert(ch, retarget(st1.channels[ch], t, f)),
                        ..st1
                    }
                } else {
                    st1
                },
                None => st1,
            }
        },
        None => st,
    }
}

/// `new [forwarded-tcpip]`: the pending `-R` request gets its channel number.
pub open spec fn learn_forwarded(st: AnnotatorView, line: Seq<char>) -> AnnotatorView {
    match channel_new(line, "forwarded-tcpip"@) {
        Some(ch) => match st.pending_remote {
            Some(info) => AnnotatorView {
                channels: st.channels.insert(ch, info),
                pending_remote: None,
                last_forwarded: Some(ch),
                ..st
            },
            None => st,
        },
        None => st,
    }
}

/// Everything one stderr line teaches the annotator.
pub open spec fn learn(st: AnnotatorView, line: Seq<char>) -> AnnotatorView {
    learn_forwarded(
        learn_connect(learn_remote(learn_direct(learn_local(learn_free(st, line), line), line), line), line),
        line,
    )
}

/// What is logged for a line, once the line has been learnt: failures are
/// annotated, other debug lines dropped, everything else kept as it is.
pub open spec fn annotation(st: AnnotatorView, line: Seq<char>) -> Option<Seq<char>> {
    match channel_open_failed(line) {
        Some(ch) => Some(
            if st.channels.contains_key(ch) {
                line + "; "@ + describe(st.channels[ch])
            } else {
                line + "; channel mapping unavailable; configured forwards=["@ + forward_list(
                    st.forwards,
                ) + "]"@
            },
        ),
        None => match connect_to_failure(line) {
            Some((h, p)) => Some(
                match find_by_target(st.forwards, h, p) {
                    Some(f) => line + "; forward="@ + display(f),
                    None => line,
                },
            ),
            None => if is_debug(line) {
                None
            } else {
                Some(line)
            },
        },
    }
}

/// Annotating never rewrites a line: what is logged is the line itself,
/// possibly followed by an annotation; only ssh's own debug chatter is
/// dropped, and a line that is neither a forwarding failure nor debug output
/// is logged unchanged.
pub proof fn lemma_annotation_keeps_line(st: AnnotatorView, line: Seq<char>)
    ensures
        match annotation(st, line) {
            Some(out) => out.len() >= line.len() && out.subrange(0, line.len() as int) == line,
            None => is_debug(line),
        },
        channel_open_failed(line) is None && connect_to_failure(line) is None && !is_debug(line)
            ==> annotation(st, line) == Some(line),
{
    match annotation(st, line) {
        Some(out) => {
            assert(out.subrange(0, line.len() as int) =~= line);
        },
        None => {},
    }
}

/// Reads ssh stderr line by line and annotates forwarding failures.
pub struct SshStderrAnnotator {
    forwards: Vec<ForwardInfo>,
    channels: HashMap<u32, ChannelInfo>,
    pending_local: Option<ChannelInfo>,
    pending_remote: Option<ChannelInfo>,
    last_forwarded_channel: Option<u32>,
}

impl View for SshStderrAnnotator {
    type V = AnnotatorView;

    closed spec fn view(&self) -> AnnotatorView {
        AnnotatorView {
            forwards: views(self.forwards@),
            channels: self.channels@.map_values(|c: ChannelInfo| c@),
            pending_local: oci(self.pending_local),
            pending_remote: oci(self.pending_remote),
            last_forwarded: self.last_forwarded_channel,
        }
    }
}

proof fn lemma_map_insert_view(m: Map<u32, ChannelInfo>, k: u32, v: ChannelInfo)
    ensures
        m.insert(k, v).map_values(|c: ChannelInfo| c@) == m.map_values(|c: ChannelInfo| c@).insert(
            k,
            v@,
        ),
{
    assert(m.insert(k, v).map_values(|c: ChannelInfo| c@) =~= m.map_values(|c: ChannelInfo| c@).insert(
        k,
        v@,
    ));
}

proof fn lemma_map_remove_view(m: Map<u32, ChannelInfo>, k: u32)
    ensures
        m.remove(k).map_values(|c: ChannelInfo| c@) == m.map_values(|c: ChannelInfo| c@).remove(k),
{
    assert(m.remove(k).map_values(|c: ChannelInfo| c@) =~= m.map_values(|c: ChannelInfo| c@).remove(
        k,
    ));
}

impl SshStderrAnnotator {
    /// An annotator that knows the forwards of `connection` and no channel yet.
    pub fn new(connection: &ConnectionConfig) -> (r: Self)
        ensures
            r@ == initial_annotator(*connection),
    {
        let r = SshStderrAnnotator {
            forwards: forward_infos(connection),
            channels: HashMap::new(),
            pending_local: None,
            pending_remote: None,
            last_forwarded_channel: None,
        };
        assert(r@.channels =~= Map::<u32, ChannelInfoView>::empty());
        r
    }

    fn learn_free_step(&mut self, line: &[char])
        ensures
            final(self)@ == learn_free(old(self)@, line@),
    {
        if let Some(ch) = parse_channel_free(line) {
            let ghost before = self.channels@;
            self.channels.remove(&ch);
            proof {
                lemma_map_remove_view(before, ch);
            }
            if self.last_forwarded_channel == Some(ch) {
                self.last_forwarded_channel = None;
            }
        }
    }

    fn learn_local_step(&mut self, line: &[char])
        ensures
            final(self)@ == learn_local(old(self)@, line@),
    {
        if let Some((lp, th, tp)) = parse_local_forward_request(line) {
            let f = find_local_forward(&self.forwards, lp.as_slice(), th.as_slice(), tp.as_slice());
            let listen = match &f {
                Some(fi) => match listen_display_of(fi) {
                    Some(l) => l,
                    None => to_vec(lp.as_slice()),
                },
                None => to_vec(lp.as_slice()),
            };
            let target = endpoint_of(th.as_slice(), tp.as_slice());
            self.pending_local = Some(
                ChannelInfo {
                    mode: ForwardMode::Local,
                    listen: Some(listen),
                    target: Some(target),
                    originator: None,
                    forward: f,
                },
            );
        }
    }

    fn learn_direct_step(&mut self, line: &[char])
        ensures
            final(self)@ == learn_direct(old(self)@, line@),
    {
        if let Some(ch) = parse_channel_new_kind(line, "direct-tcpip") {
            if let Some(info) = self.pending_local.take() {
                let ghost before = self.channels@;
                let ghost iv = info;
                self.channels.insert(ch, info);
                proof {
                    lemma_map_insert_view(before, ch, iv);
                }
            }
        }
    }

    fn learn_remote_step(&mut self, line: &[char])
        ensures
            final(self)@ == learn_remote(old(self)@, line@),
    {
        if let Some((lh, lp, oh, op)) = parse_remote_forward_request(line) {
            let f = find_remote_forward(&self.forwards, lh.as_slice(), lp.as_slice());
            let listen = match &f {
                Some(fi) => match listen_display_of(fi) {
                    Some(l) => l,
                    None => endpoint_of(lh.as_slice(), lp.as_slice()),
                },
                None => endpoint_of(lh.as_slice(), lp.as_slice()),
            };
            let target = match &f {
                Some(fi) => target_display_of(fi),
                None => None,
            };
            let origin = endpoint_of(oh.as_slice(), op.as_slice());
            self.pending_remote = Some(
                ChannelInfo {
                    mode: ForwardMode::Remote,
                    listen: Some(listen),
                    target,
                    originator: Some(origin),
                    forward: f,
                },
            );
        }
    }

    fn learn_connect_step(&mut self, line: &[char])
        ensures
            final(self)@ == learn_connect(old(self)@, line@),
    {
        if let Some((th, tp)) = parse_connect_next_start(line) {
            let target = endpoint_of(th.as_slice(), tp.as_slice());
            let f = find_forward_by_target(&self.forwards, th.as_slice(), tp.as_slice());
            if let Some(info) = self.pending_remote.take() {
                let new_forward = if info.forward.is_none() {
                    clone_ofi(&f)
                } else {
                    info.forward
                };
                self.pending_remote = Some(
                    ChannelInfo {
                        mode: info.mode,
                        listen: info.listen,
                        target: Some(to_vec(target.as_slice())),
                        originator: info.originator,
                        forward: new_forward,
                    },
                );
            }
            if let Some(ch) = self.last_forwarded_channel {
                let found = match self.channels.get(&ch) {
                    Some(info) => Some(info.duplicate()),
                    None => None,
                };
                if let Some(info) = found {
                    let new_forward = if info.forward.is_none() {
                        clone_ofi(&f)
                    } else {
                        info.forward
                    };
                    let updated = ChannelInfo {
                        mode: info.mode,
                        listen: info.listen,
                        target: Some(to_vec(target.as_slice())),
                        originator: info.originator,
                        forward: new_forward,
                    };
                    let ghost before = self.channels@;
                    let ghost uv = updated;
                    self.channels.insert(ch, updated);
                    proof {
                        lemma_map_insert_view(before, ch, uv);
                    }
                }
            }
        }
    }

    fn learn_forwarded_step(&mut self, line: &[char])
        ensures
            final(self)@ == learn_forwarded(old(self)@, line@),
    {
        if let Some(ch) = parse_channel_new_kind(line, "forwarded-tcpip") {
            if let Some(info) = self.pending_remote.take() {
                let ghost before = self.channels@;
                let ghost iv = info;
                self.channels.insert(ch, info);
                proof {
                    lemma_map_insert_view(before, ch, iv);
                }
                self.last_forwarded_channel = Some(ch);
            }
        }
    }

    fn learn(&mut self, line: &[char])
        ensures
            final(self)@ == learn(old(self)@, line@),
    {
        self.learn_free_step(line);
        self.learn_local_step(line);
        self.learn_direct_step(line);
        self.learn_remote_step(line);
        self.learn_connect_step(line);
        self.learn_forwarded_step(line);
    }

    fn annotate_channel_failure(&self, line: &[char], channel: u32) -> (r: Vec<char>)
        ensures
            r@ == (if self@.channels.contains_key(channel) {
                line@ + "; "@ + describe(self@.channels[channel])
            } else {
                line@ + "; channel mapping unavailable; configured forwards=["@ + forward_list(
                    self@.forwards,
                ) + "]"@
            }),
    {
        let mut v = to_vec(line);
        match self.channels.get(&channel) {
            Some(info) => {
                extend_text(&mut v, "; ");
                let d = describe_channel(info);
                extend_chars(&mut v, d.as_slice());
            },
            None => {
                extend_text(&mut v, "; channel mapping unavailable; configured forwards=[");
                let d = describe_forward_list(&self.forwards);
                extend_chars(&mut v, d.as_slice());
                extend_text(&mut v, "]");
            },
        }
        v
    }

    fn annotate_connect_to_failure(&self, line: &[char], host: &[char], port: &[char]) -> (r: Vec<
        char,
    >)
        ensures
            r@ == match find_by_target(self@.forwards, host@, port@) {
                Some(f) => line@ + "; forward="@ + display(f),
                None => line@,
            },
    {
        let mut v = to_vec(line);
        if let Some(f) = find_forward_by_target(&self.forwards, host, port) {
            extend_text(&mut v, "; forward=");
            let d = display_of(&f);
            extend_chars(&mut v, d.as_slice());
        }
        v
    }

    /// Learns from one stderr line and returns what should be logged for it:
    /// forwarding failures with their forward, other debug lines not at all,
    /// any other line unchanged.
    pub fn annotate(&mut self, line: &str) -> (r: Option<String>)
        ensures
            final(self)@ == learn(old(self)@, line@),
            opt_view(r) == annotation(learn(old(self)@, line@), line@),
    {
        let cs = str_chars(line);
        self.learn(cs.as_slice());
        if let Some(channel) = parse_channel_open_failed(cs.as_slice()) {
            let v = self.annotate_channel_failure(cs.as_slice(), channel);
            return Some(string_from(v.as_slice()));
        }
        if let Some((host, port)) = parse_connect_to_failure(cs.as_slice()) {
            let v = self.annotate_connect_to_failure(cs.as_slice(), host.as_slice(), port.as_slice());
            return Some(string_from(v.as_slice()));
        }
        if is_debug_line(cs.as_slice()) {
            return None;
        }
        Some(owned_line(line))
    }
}

fn owned_line(line: &str) -> (r: String)
    ensures
        r@ == line@,
{
    crate::text::owned(line)
}

} // verus!
