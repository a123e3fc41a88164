//! Normalisation of Bash commands for gate matching.
//!
//! A gate pattern such as `Bash:gh issue close*` is meant for the command
//! that does the work, however it is dressed up: at the end of a pipe, behind
//! `env` and variable assignments, or inside `bash -c "..."`. Normalisation
//! strips that dressing, in this order: take what follows the last unquoted
//! pipe; drop an `env` prefix with its assignments; unwrap a nested shell;
//! drop leading assignments; keep the first 80 characters.

use crate::text::{
    byte_count, byte_len, chars_of, has_prefix, is_name_char, is_name_character, is_space,
    is_space_char, lemma_byte_len_push, lemma_byte_len_take, lemma_trim_len, starts_with, text_of,
    trim, trim_bounds, trim_start, trim_start_bound, width_of,
};
use vstd::prelude::*;

verus! {

/// Scans `s` from `i` on for pipes outside quotes. A quote character toggles
/// its quote state unless it follows a backslash or stands inside the other
/// kind of quotes; a `|` outside quotes is recorded unless it follows another
/// `|`. The result is the last pipe recorded, `last` if none is.
pub open spec fn pipe_scan(
    s: Seq<char>,
    i: int,
    in_single: bool,
    in_double: bool,
    last: Option<int>,
) -> Option<int>
    decreases s.len() - i,
{
    if i < 0 || i >= s.len() {
        last
    } else {
        let escaped = i > 0 && s[i - 1] == '\\';
        if s[i] == '\'' && !in_double && !escaped {
            pipe_scan(s, i + 1, !in_single, in_double, last)
        } else if s[i] == '"' && !in_single && !escaped {
            pipe_scan(s, i + 1, in_single, !in_double, last)
        } else if s[i] == '|' && !in_single && !in_double && !(i > 0 && s[i - 1] == '|') {
            pipe_scan(s, i + 1, in_single, in_double, Some(i))
        } else {
            pipe_scan(s, i + 1, in_single, in_double, last)
        }
    }
}

/// The index of the last pipe of `s` that stands outside quotes and does not
/// follow another pipe.
pub open spec fn last_pipe(s: Seq<char>) -> Option<int> {
    pipe_scan(s, 0, false, false, None)
}

fn last_pipe_in(v: &Vec<char>) -> (r: Option<usize>)
    ensures
        match last_pipe(v@) {
            Some(p) => r == Some(p as usize) && 0 <= p < v@.len(),
            None => r is None,
        },
{
    let mut in_single = false;
    let mut in_double = false;
    let mut last: Option<usize> = None;
    let mut i: usize = 0;
    while i < v.len()
        invariant
            i <= v.len(),
            last matches Some(p) ==> p < v.len(),
            last_pipe(v@) == pipe_scan(
                v@,
                i as int,
                in_single,
                in_double,
                match last {
                    Some(p) => Some(p as int),
                    None => None,
                },
            ),
        decreases v.len() - i,
    {
        let c = v[i];
        let escaped = i > 0 && v[i - 1] == '\\';
        if c == '\'' && !in_double && !escaped {
            in_single = !in_single;
        } else if c == '"' && !in_single && !escaped {
            in_double = !in_double;
        } else if c == '|' && !in_single && !in_double && !(i > 0 && v[i - 1] == '|') {
            last = Some(i);
        }
        i += 1;
    }
    last
}

/// The offset in bytes of the character at index `p` of `s`.
pub open spec fn byte_offset(s: Seq<char>, p: int) -> nat {
    byte_len(s.take(p))
}

/// Finds the last pipe of `cmd` that stands outside quotes: its offset in bytes.
pub fn find_last_unquoted_pipe(cmd: &str) -> (r: Option<usize>)
    ensures
        match last_pipe(cmd@) {
            Some(p) => 0 <= p < cmd@.len() && r == Some(byte_offset(cmd@, p) as usize)
                && byte_offset(cmd@, p) < byte_len(cmd@),
            None => r is None,
        },
{
    let v = chars_of(cmd);
    let total = byte_count(cmd);
    match last_pipe_in(&v) {
        Some(p) => {
            let mut offset: usize = 0;
            let mut i: usize = 0;
            assert(v@.take(v@.len() as int) == v@);
            while i < p
                invariant
                    i <= p < v.len(),
                    offset == byte_len(v@.take(i as int)),
                    total == byte_len(v@),
                decreases p - i,
            {
                proof {
                    assert(v@.take(i + 1) == v@.take(i as int).push(v@[i as int]));
                    lemma_byte_len_push(v@.take(i as int), v@[i as int]);
                    lemma_byte_len_take(v@, i + 1, v@.len() as int);
                    assert(v@.take(v@.len() as int) == v@);
                }
                offset = offset + width_of(v[i]);
                i += 1;
            }
            proof {
                assert(v@.take(p + 1) == v@.take(p as int).push(v@[p as int]));
                lemma_byte_len_push(v@.take(p as int), v@[p as int]);
                lemma_byte_len_take(v@, p + 1, v@.len() as int);
            }
            Some(offset)
        },
        None => None,
    }
}

/// The first index at or after `i` at which a double quote closes: a `"` that
/// does not follow a backslash (`s.len()` if none).
pub open spec fn closing_double(s: Seq<char>, i: int) -> int
    decreases s.len() - i,
{
    if 0 <= i < s.len() && !(s[i] == '"' && !(i > 0 && s[i - 1] == '\\')) {
        closing_double(s, i + 1)
    } else {
        i
    }
}

/// The first index at or after `i` that holds `c` (`s.len()` if none).
pub open spec fn next_char(s: Seq<char>, c: char, i: int) -> int
    decreases s.len() - i,
{
    if 0 <= i < s.len() && s[i] != c {
        next_char(s, c, i + 1)
    } else {
        i
    }
}

/// The first index at or after `i` that holds white space (`s.len()` if none).
pub open spec fn next_space(s: Seq<char>, i: int) -> int
    decreases s.len() - i,
{
    if 0 <= i < s.len() && !is_space(s[i]) {
        next_space(s, i + 1)
    } else {
        i
    }
}

/// The first index at or after `i` that holds no name character (`s.len()` if none).
pub open spec fn name_end(s: Seq<char>, i: int) -> int
    decreases s.len() - i,
{
    if 0 <= i < s.len() && is_name_char(s[i]) {
        name_end(s, i + 1)
    } else {
        i
    }
}

/// Every scan stays within `s`.
pub proof fn lemma_scan_bounds(s: Seq<char>, c: char, i: int)
    requires
        0 <= i <= s.len(),
    ensures
        i <= closing_double(s, i) <= s.len(),
        i <= next_char(s, c, i) <= s.len(),
        i <= next_space(s, i) <= s.len(),
        i <= name_end(s, i) <= s.len(),
    decreases s.len() - i,
{
    if i < s.len() {
        lemma_scan_bounds(s, c, i + 1);
    }
}

/// What is left of `s` once the value at its start is skipped.
///
/// Leading white space is skipped first. A value that opens with `"` runs to
/// the next `"` that does not follow a backslash; one that opens with `'` runs
/// to the next `'`; any other runs up to the next white space. A quoted value
/// that is never closed is not skipped at all.
pub open spec fn skip_value(s: Seq<char>) -> Seq<char> {
    let t = trim_start(s);
    if t.len() > 0 && t[0] == '"' {
        let rest = t.skip(1);
        let j = closing_double(rest, 0);
        if j < rest.len() {
            rest.skip(j + 1)
        } else {
            t
        }
    } else if t.len() > 0 && t[0] == '\'' {
        let rest = t.skip(1);
        let j = next_char(rest, '\'', 0);
        if j < rest.len() {
            rest.skip(j + 1)
        } else {
            t
        }
    } else {
        t.skip(next_space(t, 0))
    }
}

/// Skipping a value never makes a text longer.
pub proof fn lemma_skip_value_len(s: Seq<char>)
    ensures
        skip_value(s).len() <= s.len(),
{
    lemma_trim_len(s);
    let t = trim_start(s);
    if t.len() > 0 {
        lemma_scan_bounds(t.skip(1), '\'', 0);
    }
    lemma_scan_bounds(t, '\'', 0);
}

/// `s` begins with an assignment: a name of one or more of `[A-Za-z0-9_]`, then `=`.
pub open spec fn begins_with_assignment(s: Seq<char>) -> bool {
    let k = name_end(s, 0);
    0 < k < s.len() && s[k] == '='
}

/// `s` without the assignments `NAME=VALUE` at its start, white space around
/// each value cut.
pub open spec fn strip_assignments(s: Seq<char>) -> Seq<char>
    decreases s.len(),
    via strip_assignments_decreases
{
    if begins_with_assignment(s) {
        strip_assignments(trim(skip_value(s.skip(name_end(s, 0) + 1))))
    } else {
        s
    }
}

#[via_fn]
proof fn strip_assignments_decreases(s: Seq<char>) {
    if begins_with_assignment(s) {
        let rest = s.skip(name_end(s, 0) + 1);
        lemma_skip_value_len(rest);
        lemma_trim_len(skip_value(rest));
    }
}

/// `cmd` without leading assignments.
pub open spec fn without_assignments(cmd: Seq<char>) -> Seq<char> {
    strip_assignments(trim(cmd))
}

/// The inside of `s` where `s` is wrapped in a pair of `quote`.
pub open spec fn wrapped_in(s: Seq<char>, quote: char) -> bool {
    s.len() >= 2 && s[0] == quote && s[s.len() - 1] == quote
}

/// `s` without a surrounding pair of matching quotes, double or single.
pub open spec fn unquoted(s: Seq<char>) -> Seq<char> {
    if wrapped_in(s, '"') || wrapped_in(s, '\'') {
        s.subrange(1, s.len() - 1)
    } else {
        s
    }
}

/// The command handed to a nested shell, where `cmd` begins with `bash -c `,
/// `sh -c `, `/bin/bash -c ` or `/bin/sh -c `.
pub open spec fn nested_command(cmd: Seq<char>) -> Option<Seq<char>> {
    if has_prefix(cmd, "bash -c "@) {
        Some(unquoted(trim(cmd.skip("bash -c "@.len() as int))))
    } else if has_prefix(cmd, "sh -c "@) {
        Some(unquoted(trim(cmd.skip("sh -c "@.len() as int))))
    } else if has_prefix(cmd, "/bin/bash -c "@) {
        Some(unquoted(trim(cmd.skip("/bin/bash -c "@.len() as int))))
    } else if has_prefix(cmd, "/bin/sh -c "@) {
        Some(unquoted(trim(cmd.skip("/bin/sh -c "@.len() as int))))
    } else {
        None
    }
}

/// The first `n` characters of `s`, all of `s` if it is shorter.
pub open spec fn first_chars(s: Seq<char>, n: nat) -> Seq<char> {
    if s.len() <= n {
        s
    } else {
        s.take(n as int)
    }
}

/// The normal form of a Bash command.
pub open spec fn normalized(cmd: Seq<char>) -> Seq<char> {
    let whole = trim(cmd);
    let sink = match last_pipe(whole) {
        Some(p) => trim(whole.skip(p + 1)),
        None => whole,
    };
    let bare = if has_prefix(sink, "env "@) {
        without_assignments(sink.skip("env "@.len() as int))
    } else {
        sink
    };
    let inner = match nested_command(bare) {
        Some(c) => c,
        None => bare,
    };
    first_chars(without_assignments(inner), 80)
}

/// The characters `v[lo..hi]`.
fn span(v: &Vec<char>, lo: usize, hi: usize) -> (r: Vec<char>)
    requires
        lo <= hi <= v.len(),
    ensures
        r@ == v@.subrange(lo as int, hi as int),
{
    let mut out: Vec<char> = Vec::new();
    let mut i: usize = lo;
    while i < hi
        invariant
            lo <= i <= hi <= v.len(),
            out@ == v@.subrange(lo as int, i as int),
        decreases hi - i,
    {
        out.push(v[i]);
        assert(v@.subrange(lo as int, i + 1) == v@.subrange(lo as int, i as int).push(v@[i as int]));
        i += 1;
    }
    out
}

fn trimmed(v: &Vec<char>) -> (r: Vec<char>)
    ensures
        r@ == trim(v@),
{
    let n = v.len();
    let (a, b) = trim_bounds(v, 0, n);
    assert(v@.subrange(0, n as int) == v@);
    span(v, a, b)
}

/// What is left of `v[a..]`, which opens with `"`, after its closing quote.
fn after_double(v: &Vec<char>, a: usize) -> (r: Vec<char>)
    requires
        a < v.len(),
    ensures
        ({
            let t = v@.skip(a as int);
            let rest = t.skip(1);
            let j = closing_double(rest, 0);
            r@ == if j < rest.len() {
                rest.skip(j + 1)
            } else {
                t
            }
        }),
{
    let n = v.len();
    let ghost rest = v@.skip(a as int).skip(1);
    assert(rest == v@.subrange(a + 1, n as int));
    let mut j: usize = a + 1;
    while j < n && !(v[j] == '"' && !(j > a + 1 && v[j - 1] == '\\'))
        invariant
            a + 1 <= j <= n,
            n == v.len(),
            rest == v@.subrange(a + 1, n as int),
            closing_double(rest, 0) == closing_double(rest, j - (a + 1)),
        decreases n - j,
    {
        j += 1;
    }
    if j < n {
        assert(rest.skip(j - (a + 1) + 1) == v@.subrange(j + 1, n as int));
        span(v, j + 1, n)
    } else {
        assert(v@.skip(a as int) == v@.subrange(a as int, n as int));
        span(v, a, n)
    }
}

/// What is left of `v[a..]`, which opens with `'`, after its closing quote.
fn after_single(v: &Vec<char>, a: usize) -> (r: Vec<char>)
    requires
        a < v.len(),
    ensures
        ({
            let t = v@.skip(a as int);
            let rest = t.skip(1);
            let j = next_char(rest, '\'', 0);
            r@ == if j < rest.len() {
                rest.skip(j + 1)
            } else {
                t
            }
        }),
{
    let n = v.len();
    let ghost rest = v@.skip(a as int).skip(1);
    assert(rest == v@.subrange(a + 1, n as int));
    let mut j: usize = a + 1;
    while j < n && v[j] != '\''
        invariant
            a + 1 <= j <= n,
            n == v.len(),
            rest == v@.subrange(a + 1, n as int),
            next_char(rest, '\'', 0) == next_char(rest, '\'', j - (a + 1)),
        decreases n - j,
    {
        j += 1;
    }
    if j < n {
        assert(rest.skip(j - (a + 1) + 1) == v@.subrange(j + 1, n as int));
        span(v, j + 1, n)
    } else {
        assert(v@.skip(a as int) == v@.subrange(a as int, n as int));
        span(v, a, n)
    }
}

/// What is left of `v[a..]` from its first white space on.
fn after_bare(v: &Vec<char>, a: usize) -> (r: Vec<char>)
    requires
        a <= v.len(),
    ensures
        r@ == v@.skip(a as int).skip(next_space(v@.skip(a as int), 0)),
{
    let n = v.len();
    let ghost t = v@.skip(a as int);
    assert(t == v@.subrange(a as int, n as int));
    let mut j: usize = a;
    while j < n && !is_space_char(v[j])
        invariant
            a <= j <= n,
            n == v.len(),
            t == v@.subrange(a as int, n as int),
            next_space(t, 0) == next_space(t, j - a),
        decreases n - j,
    {
        j += 1;
    }
    assert(t.skip(j - a) == v@.subrange(j as int, n as int));
    span(v, j, n)
}

fn skip_value_chars(v: &Vec<char>) -> (r: Vec<char>)
    ensures
        r@ == skip_value(v@),
{
    let n = v.len();
    let a = trim_start_bound(v, 0, n);
    assert(v@.subrange(0, n as int) == v@);
    assert(trim_start(v@) == v@.skip(a as int));
    if a < n && v[a] == '"' {
        after_double(v, a)
    } else if a < n && v[a] == '\'' {
        after_single(v, a)
    } else {
        after_bare(v, a)
    }
}

/// Skips a value, quoted or not, and returns the rest.
pub fn skip_value_str(s: &str) -> (r: String)
    ensures
        r@ == skip_value(s@),
{
    let v = chars_of(s);
    let out = skip_value_chars(&v);
    let n = out.len();
    assert(out@.subrange(0, n as int) == out@);
    text_of(&out, 0, n)
}

fn name_end_in(v: &Vec<char>) -> (k: usize)
    ensures
        k <= v.len(),
        k == name_end(v@, 0),
{
    let mut k: usize = 0;
    while k < v.len() && is_name_character(v[k])
        invariant
            k <= v.len(),
            name_end(v@, 0) == name_end(v@, k as int),
        decreases v.len() - k,
    {
        k += 1;
    }
    k
}

fn strip_assignments_chars(v: Vec<char>) -> (r: Vec<char>)
    ensures
        r@ == strip_assignments(v@),
{
    let mut cur = v;
    loop
        invariant
            strip_assignments(cur@) == strip_assignments(v@),
        ensures
            cur@ == strip_assignments(v@),
        decreases cur.len(),
    {
        let k = name_end_in(&cur);
        if k > 0 && k < cur.len() && cur[k] == '=' {
            let n = cur.len();
            let rest = span(&cur, k + 1, n);
            assert(rest@ == cur@.skip(k + 1));
            let skipped = skip_value_chars(&rest);
            let next = trimmed(&skipped);
            proof {
                lemma_skip_value_len(rest@);
                lemma_trim_len(skipped@);
            }
            cur = next;
        } else {
            break;
        }
    }
    cur
}

fn without_assignments_chars(v: &Vec<char>) -> (r: Vec<char>)
    ensures
        r@ == without_assignments(v@),
{
    strip_assignments_chars(trimmed(v))
}

/// Strips leading `NAME=VALUE` assignments from a command.
pub fn strip_env_vars(cmd: &str) -> (r: String)
    ensures
        r@ == without_assignments(cmd@),
{
    let v = chars_of(cmd);
    let out = without_assignments_chars(&v);
    let n = out.len();
    assert(out@.subrange(0, n as int) == out@);
    text_of(&out, 0, n)
}

/// Skips the assignments that follow an `env` command; `cmd` is what stands after `env `.
pub fn skip_env_command(cmd: &str) -> (r: String)
    ensures
        r@ == without_assignments(cmd@),
{
    strip_env_vars(cmd)
}

fn unquoted_chars(v: &Vec<char>) -> (r: Vec<char>)
    ensures
        r@ == unquoted(v@),
{
    let n = v.len();
    if n >= 2 && ((v[0] == '"' && v[n - 1] == '"') || (v[0] == '\'' && v[n - 1] == '\'')) {
        span(v, 1, n - 1)
    } else {
        assert(v@.subrange(0, n as int) == v@);
        span(v, 0, n)
    }
}

fn after_prefix(v: &Vec<char>, prefix: &str) -> (r: Option<Vec<char>>)
    ensures
        has_prefix(v@, prefix@) ==> (r matches Some(c) && c@ == unquoted(
            trim(v@.skip(prefix@.len() as int)),
        )),
        !has_prefix(v@, prefix@) ==> r is None,
{
    let p = chars_of(prefix);
    assert(v@.skip(0) == v@);
    if crate::text::matches_at(v, 0, &p) {
        let n = v.len();
        let rest = span(v, p.len(), n);
        assert(rest@ == v@.skip(prefix@.len() as int));
        let t = trimmed(&rest);
        Some(unquoted_chars(&t))
    } else {
        None
    }
}

fn nested_command_chars(v: &Vec<char>) -> (r: Option<Vec<char>>)
    ensures
        match nested_command(v@) {
            Some(c) => r matches Some(x) && x@ == c,
            None => r is None,
        },
{
    match after_prefix(v, "bash -c ") {
        Some(c) => Some(c),
        None => match after_prefix(v, "sh -c ") {
            Some(c) => Some(c),
            None => match after_prefix(v, "/bin/bash -c ") {
                Some(c) => Some(c),
                None => after_prefix(v, "/bin/sh -c "),
            },
        },
    }
}

/// Extracts the command handed to a nested shell: `bash -c 'cmd'` gives `cmd`.
pub fn extract_nested_shell_command(cmd: &str) -> (r: Option<String>)
    ensures
        match nested_command(cmd@) {
            Some(c) => r matches Some(x) && x@ == c,
            None => r is None,
        },
{
    let v = chars_of(cmd);
    match nested_command_chars(&v) {
        Some(c) => {
            let n = c.len();
            assert(c@.subrange(0, n as int) == c@);
            Some(text_of(&c, 0, n))
        },
        None => None,
    }
}

/// Normalises a Bash command for matching.
pub fn normalize_bash_command(cmd: &str) -> (r: String)
    ensures
        r@ == normalized(cmd@),
        r@.len() <= 80,
{
    let v = chars_of(cmd);
    let whole = trimmed(&v);
    let sink = match last_pipe_in(&whole) {
        Some(p) => {
            let n = whole.len();
            let after = span(&whole, p + 1, n);
            assert(after@ == whole@.skip(p + 1));
            trimmed(&after)
        },
        None => whole,
    };
    let bare = if starts_with(&sink, "env ") {
        let p = chars_of("env ");
        let n = sink.len();
        let rest = span(&sink, p.len(), n);
        assert(rest@ == sink@.skip("env "@.len() as int));
        without_assignments_chars(&rest)
    } else {
        sink
    };
    let inner = match nested_command_chars(&bare) {
        Some(c) => c,
        None => bare,
    };
    let last = without_assignments_chars(&inner);
    let n = last.len();
    if n <= 80 {
        assert(last@.subrange(0, n as int) == last@);
        text_of(&last, 0, n)
    } else {
        text_of(&last, 0, 80)
    }
}

} // verus!
