//! The specification of one task: its command line after shorthand
//! expansion, split into executable and arguments, and its display name.

use crate::message::Color;
use crate::text::{
    lemma_split_from_len, lemma_views_push, begins_with, contains, matches_at, decimal, decimal_text, occurs_in, replace, replace_all, split, split_on,
    starts_with, truncate, views,
};
use std::fmt::Write;
use vstd::prelude::*;
use vstd::string::*;

verus! {

/// One task's command: executable, arguments, display name, index, colour,
/// and whether its output lines are suppressed.
#[derive(Debug)]
pub struct Process {
    pub name: String,
    pub args: Vec<String>,
    pub cmd: String,
    pub index: usize,
    pub color: Color,
    pub hidden: bool,
}

/// `npm:` shorthand rewritten to `npm run `.
pub open spec fn npm_expanded(cmd: Seq<char>) -> Seq<char> {
    replace_all(cmd, "npm:"@, "npm run "@)
}

/// `pnpm:` shorthand rewritten to `pnpm `.
pub open spec fn pnpm_expanded(cmd: Seq<char>) -> Seq<char> {
    replace_all(cmd, "pnpm:"@, "pnpm "@)
}

/// A raw command with its package-manager shorthands rewritten: `pnpm:`
/// first, then `npm:`.
pub open spec fn expanded(cmd: Seq<char>) -> Seq<char> {
    npm_expanded(pnpm_expanded(cmd))
}

fn npm_expander(cmd: &str) -> (r: String)
    ensures
        r@ == npm_expanded(cmd@),
{
    proof {
        reveal_strlit("npm:");
    }
    replace(cmd, "npm:", "npm run ")
}

fn pnpm_expander(cmd: &str) -> (r: String)
    ensures
        r@ == pnpm_expanded(cmd@),
{
    proof {
        reveal_strlit("pnpm:");
    }
    replace(cmd, "pnpm:", "pnpm ")
}

/// The command with its package-manager shorthands rewritten.
pub fn expand(cmd: &str) -> (r: String)
    ensures
        r@ == expanded(cmd@),
{
    let cmd = pnpm_expander(cmd);
    npm_expander(cmd.as_str())
}

/// The command line that a raw command stands for; never fails.
pub fn parse(raw_cmd: &str) -> (r: Result<String, ()>)
    ensures
        r is Ok,
        r->Ok_0@ == expanded(raw_cmd@),
{
    Ok(expand(raw_cmd))
}

/// The characters that Unicode calls white space.
pub open spec fn is_white_space(c: char) -> bool {
    c == '\t' || c == '\n' || c == '\u{0B}' || c == '\u{0C}' || c == '\r' || c == ' '
        || c == '\u{85}' || c == '\u{A0}' || c == '\u{1680}' || ('\u{2000}' <= c
        && c <= '\u{200A}') || c == '\u{2028}' || c == '\u{2029}' || c == '\u{202F}' || c
        == '\u{205F}' || c == '\u{3000}'
}

fn white_space(c: char) -> (r: bool)
    ensures
        r == is_white_space(c),
{
    c == '\t' || c == '\n' || c == '\u{0B}' || c == '\u{0C}' || c == '\r' || c == ' ' || c
        == '\u{85}' || c == '\u{A0}' || c == '\u{1680}' || ('\u{2000}' <= c && c <= '\u{200A}')
        || c == '\u{2028}' || c == '\u{2029}' || c == '\u{202F}' || c == '\u{205F}' || c
        == '\u{3000}'
}

/// `cur` as a list of at most one word.
pub open spec fn word_if_any(cur: Seq<char>) -> Seq<Seq<char>> {
    if cur.len() == 0 {
        Seq::empty()
    } else {
        seq![cur]
    }
}

/// The maximal runs of non-white-space characters of `s`, where `cur` is
/// the start of the first run, already read.
pub open spec fn words_from(s: Seq<char>, cur: Seq<char>) -> Seq<Seq<char>>
    decreases s.len(),
{
    if s.len() == 0 {
        word_if_any(cur)
    } else if is_white_space(s[0]) {
        word_if_any(cur) + words_from(s.skip(1), Seq::empty())
    } else {
        words_from(s.skip(1), cur.push(s[0]))
    }
}

/// The words of `s`: its maximal runs of non-white-space characters.
pub open spec fn words(s: Seq<char>) -> Seq<Seq<char>> {
    words_from(s, Seq::empty())
}

/// The words of `s`.
fn split_whitespace(s: &str) -> (r: Vec<String>)
    ensures
        views(r@) == words(s@),
{
    let n = s.unicode_len();
    let mut out: Vec<String> = Vec::new();
    let mut start: usize = 0;
    let mut i: usize = 0;
    assert(s@.skip(0) =~= s@);
    assert(s@.subrange(0, 0) =~= Seq::<char>::empty());
    while i < n
        invariant
            n == s@.len(),
            start <= i <= n,
            words(s@) == views(out@) + words_from(s@.skip(i as int), s@.subrange(start as int, i as int)),
        decreases n - i,
    {
        let ghost rest = s@.skip(i as int);
        let ghost cur = s@.subrange(start as int, i as int);
        assert(rest.skip(1) =~= s@.skip(i + 1));
        if white_space(s.get_char(i)) {
            if start < i {
                let w = String::from_str(s.substring_char(start, i));
                proof {
                    lemma_views_push(out@, w);
                    assert(views(out@.push(w)) + words_from(rest.skip(1), Seq::empty()) =~= views(out@)
                        + (word_if_any(cur) + words_from(rest.skip(1), Seq::empty())));
                }
                out.push(w);
            } else {
                assert(word_if_any(cur) =~= Seq::<Seq<char>>::empty());
                assert(views(out@) + words_from(rest.skip(1), Seq::empty()) =~= views(out@) + (
                word_if_any(cur) + words_from(rest.skip(1), Seq::empty())));
            }
            i = i + 1;
            start = i;
            assert(s@.subrange(i as int, i as int) =~= Seq::<char>::empty());
        } else {
            assert(cur.push(rest[0]) =~= s@.subrange(start as int, i + 1));
            i = i + 1;
        }
    }
    assert(s@.skip(n as int) =~= Seq::<char>::empty());
    if start < n {
        let w = String::from_str(s.substring_char(start, n));
        proof {
            lemma_views_push(out@, w);
            assert(views(out@.push(w)) =~= views(out@) + word_if_any(s@.subrange(start as int, n as int)));
        }
        out.push(w);
    } else {
        assert(views(out@) + word_if_any(s@.subrange(start as int, n as int)) =~= views(out@));
    }
    out
}


/// The view of an optional string.
pub open spec fn opt_view(o: Option<String>) -> Option<Seq<char>> {
    match o {
        Some(s) => Some(s@),
        None => None,
    }
}

/// The template after one substitution: a template that is exactly the key
/// becomes the value; otherwise each `{key}` is replaced by the value.
pub open spec fn substituted(prefix: Seq<char>, key: Seq<char>, value: Seq<char>) -> Seq<char> {
    if prefix == key {
        value
    } else {
        replace_all(prefix, "{"@ + key + "}"@, value)
    }
}

/// A name template with its placeholders filled in, in this order: the task
/// index, the command (twice: as `command` and as `name`), the process id,
/// the time, and `none` (empty).
pub open spec fn filled_template(
    prefix: Seq<char>,
    raw_cmd: Seq<char>,
    index: nat,
    pid: nat,
    time: Seq<char>,
) -> Seq<char> {
    let p = substituted(prefix, "index"@, decimal(index));
    let p = substituted(p, "command"@, raw_cmd);
    let p = substituted(p, "name"@, raw_cmd);
    let p = substituted(p, "pid"@, decimal(pid));
    let p = substituted(p, "time"@, time);
    substituted(p, "none"@, Seq::empty())
}

/// The first `n` characters of `s`, or all of it.
pub open spec fn first_chars(s: Seq<char>, n: int) -> Seq<char> {
    if n < s.len() {
        s.take(n)
    } else {
        s
    }
}

/// The name of an unnamed task without a template: the script after the
/// first `pnpm:`, else after the first `yarn:`, else after a leading `npm:`
/// (up to any later occurrence of the same shorthand), else the task index.
pub open spec fn fallback_name(raw_cmd: Seq<char>, index: nat) -> Seq<char> {
    if occurs_in(raw_cmd, "pnpm:"@) {
        split_on(raw_cmd, "pnpm:"@)[1]
    } else if occurs_in(raw_cmd, "yarn:"@) {
        split_on(raw_cmd, "yarn:"@)[1]
    } else if begins_with(raw_cmd, "npm:"@) {
        split_on(raw_cmd, "npm:"@)[1]
    } else {
        decimal(index)
    }
}

/// A task's display name: the filled template cut to `length` characters
/// if there is a template, else the given name, else the fallback name.
pub open spec fn task_name(
    raw_cmd: Seq<char>,
    name: Option<Seq<char>>,
    index: nat,
    prefix: Option<Seq<char>>,
    length: int,
    pid: nat,
    time: Seq<char>,
) -> Seq<char> {
    match prefix {
        Some(p) => first_chars(filled_template(p, raw_cmd, index, pid, time), length),
        None => match name {
            Some(n) => n,
            None => fallback_name(raw_cmd, index),
        },
    }
}

fn replace_prefix(prefix: String, key: &str, value: String) -> (r: String)
    requires
        key@.len() > 0,
    ensures
        r@ == substituted(prefix@, key@, value@),
{
    assert(prefix@ == key@ ==> prefix@.subrange(0, key@.len() as int) =~= key@);
    assert(prefix@ == key@ ==> matches_at(prefix@, key@, 0));
    if prefix.as_str().unicode_len() == key.unicode_len() && contains(prefix.as_str(), key) {
        proof {
            let i = choose|i: int| matches_at(prefix@, key@, i);
            assert(i == 0);
            assert(prefix@.subrange(0, key@.len() as int) =~= prefix@);
        }
        value
    } else {
        let pattern = String::from_str("{").concat(key).concat("}");
        proof {
            reveal_strlit("{");
            reveal_strlit("}");
        }
        assert(pattern@.len() > 0);
        replace(prefix.as_str(), pattern.as_str(), &value)
    }
}

/// The piece after the first occurrence of `sep` in `raw_cmd`.
fn second_piece(raw_cmd: &str, sep: &str) -> (r: String)
    requires
        sep@.len() > 0,
        occurs_in(raw_cmd@, sep@),
    ensures
        r@ == split_on(raw_cmd@, sep@)[1],
{
    let pieces = split(raw_cmd, sep);
    proof {
        lemma_split_from_len(raw_cmd@, sep@, Seq::empty());
        assert(views(pieces@)[1] == pieces@[1]@);
    }
    pieces[1].clone()
}

/// A task's display name (see `task_name`), given the process id and the
/// formatted current time that a template may use.
pub fn get_name(
    raw_cmd: &str,
    name: Option<String>,
    index: usize,
    prefix: Option<String>,
    length: i16,
    pid: u32,
    time: String,
) -> (r: String)
    requires
        prefix is Some ==> length >= 0,
    ensures
        r@ == task_name(raw_cmd@, opt_view(name), index as nat, opt_view(prefix), length as int, pid as nat, time@),
{
    if let Some(prefix) = prefix {
        proof {
            reveal_strlit("index");
            reveal_strlit("command");
            reveal_strlit("name");
            reveal_strlit("pid");
            reveal_strlit("time");
            reveal_strlit("none");
        }
        let p = replace_prefix(prefix, "index", decimal_text(index as u64));
        let p = replace_prefix(p, "command", String::from_str(raw_cmd));
        let p = replace_prefix(p, "name", String::from_str(raw_cmd));
        let p = replace_prefix(p, "pid", decimal_text(pid as u64));
        let p = replace_prefix(p, "time", time);
        let p = replace_prefix(p, "none", String::new());
        let t = truncate(p.as_str(), length as usize);
        return String::from_str(t);
    }
    if let Some(name) = name {
        return name;
    }
    proof {
        reveal_strlit("pnpm:");
        reveal_strlit("yarn:");
        reveal_strlit("npm:");
    }
    if contains(raw_cmd, "pnpm:") {
        second_piece(raw_cmd, "pnpm:")
    } else if contains(raw_cmd, "yarn:") {
        second_piece(raw_cmd, "yarn:")
    } else if starts_with(raw_cmd, "npm:") {
        second_piece(raw_cmd, "npm:")
    } else {
        decimal_text(index as u64)
    }
}


/// Relies on chrono's `Local::now` and `DateTime::format`: the current local
/// time written with a strftime-style format, or nothing when the format
/// does not parse.
#[verifier::external_body]
fn local_time_text(format: &str) -> (r: Option<String>) {
    let mut out = String::new();
    match write!(out, "{}", chrono::Local::now().format(format)) {
        Ok(()) => Some(out),
        Err(_) => None,
    }
}

impl Process {
    /// The task for a raw command: the expanded command split into words,
    /// the first of which is the executable; its name is `task_name` of the
    /// current time written with `timestamp_format` (empty where that format
    /// does not parse).
    pub fn new(
        raw_cmd: String,
        name: Option<String>,
        index: usize,
        prefix: Option<String>,
        length: i16,
        color: Color,
        timestamp_format: String,
        hidden: bool,
        pid: u32,
    ) -> (r: Process)
        requires
            prefix is Some ==> length >= 0,
        ensures
            r.cmd@ == (if words(expanded(raw_cmd@)).len() == 0 {
                Seq::<char>::empty()
            } else {
                words(expanded(raw_cmd@))[0]
            }),
            views(r.args@) == (if words(expanded(raw_cmd@)).len() == 0 {
                Seq::<Seq<char>>::empty()
            } else {
                words(expanded(raw_cmd@)).skip(1)
            }),
            exists|time: Seq<char>|
                r.name@ == #[trigger] task_name(
                    raw_cmd@,
                    opt_view(name),
                    index as nat,
                    opt_view(prefix),
                    length as int,
                    pid as nat,
                    time,
                ),
            r.index == index,
            r.color == color,
            r.hidden == hidden,
    {
        let parsed = expand(raw_cmd.as_str());
        let mut parts = split_whitespace(parsed.as_str());
        let ghost all = views(parts@);
        let cmd = if parts.len() == 0 {
            String::new()
        } else {
            let first = parts.remove(0);
            assert(views(parts@) =~= all.skip(1));
            first
        };
        let time = match local_time_text(timestamp_format.as_str()) {
            Some(t) => t,
            None => String::new(),
        };
        let name = get_name(raw_cmd.as_str(), name, index, prefix, length, pid, time);
        Process { name, args: parts, cmd, index, color, hidden }
    }
}

} // verus!
