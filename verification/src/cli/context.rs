//! Text helpers of the `context` command.

use crate::text::{byte_count, byte_len, byte_prefix, byte_prefix_end, chars_of, push_all, text_of};
use vstd::prelude::*;

verus! {

/// The first index at or after `i` that holds a line feed (`s.len()` if none).
pub open spec fn line_feed(s: Seq<char>, i: int) -> int
    decreases s.len() - i,
{
    if 0 <= i < s.len() && s[i] != '\n' {
        line_feed(s, i + 1)
    } else {
        i
    }
}

/// The end of the first line of `s`: its first line feed, or the carriage
/// return just before it, or the end of `s`.
pub open spec fn first_line_end(s: Seq<char>) -> int {
    let n = line_feed(s, 0);
    if 0 < n < s.len() && s[n - 1] == '\r' {
        n - 1
    } else {
        n
    }
}

/// The first line of `s`, without its line ending.
pub open spec fn first_line(s: Seq<char>) -> Seq<char> {
    s.take(first_line_end(s))
}

/// `s` has more than one line: something follows its first line feed.
pub open spec fn has_more_lines(s: Seq<char>) -> bool {
    line_feed(s, 0) + 1 < s.len()
}

/// The characters of the first line of `v`, and whether more lines follow.
pub fn split_first_line(v: &Vec<char>) -> (r: (Vec<char>, bool))
    ensures
        r.0@ == first_line(v@),
        r.1 == has_more_lines(v@),
{
    let mut n: usize = 0;
    while n < v.len() && v[n] != '\n'
        invariant
            n <= v.len(),
            line_feed(v@, 0) == line_feed(v@, n as int),
        decreases v.len() - n,
    {
        n += 1;
    }
    let more = n < v.len() && n + 1 < v.len();
    let end: usize = if 0 < n && n < v.len() && v[n - 1] == '\r' {
        n - 1
    } else {
        n
    };
    let mut out: Vec<char> = Vec::new();
    let mut i: usize = 0;
    while i < end
        invariant
            i <= end <= v.len(),
            out@ == v@.take(i as int),
        decreases end - i,
    {
        out.push(v[i]);
        assert(v@.take(i + 1) == v@.take(i as int).push(v@[i as int]));
        i += 1;
    }
    (out, more)
}

/// A prompt cut down for display: its first line, cut to the longest prefix
/// of whole characters within `max_len` bytes and followed by `...` where it
/// is longer than that; followed by ` [...]` where more lines follow.
pub open spec fn prompt_display(prompt: Seq<char>, max_len: nat) -> Seq<char> {
    let line = first_line(prompt);
    if byte_len(line) > max_len {
        byte_prefix(line, max_len) + "..."@
    } else if has_more_lines(prompt) {
        line + " [...]"@
    } else {
        line
    }
}

/// Truncates a prompt for display.
pub fn truncate_prompt(prompt: &str, max_len: usize) -> (r: String)
    ensures
        r@ == prompt_display(prompt@, max_len as nat),
{
    let v = chars_of(prompt);
    let (line, more) = split_first_line(&v);
    let n = line.len();
    assert(line@.subrange(0, n as int) == line@);
    let line_text = text_of(&line, 0, n);
    let mut out: Vec<char> = Vec::new();
    if byte_count(line_text.as_str()) > max_len {
        let k = byte_prefix_end(&line, max_len);
        let mut i: usize = 0;
        while i < k
            invariant
                i <= k <= line.len(),
                out@ == line@.take(i as int),
            decreases k - i,
        {
            out.push(line[i]);
            assert(line@.take(i + 1) == line@.take(i as int).push(line@[i as int]));
            i += 1;
        }
        push_all(&mut out, &chars_of("..."));
    } else if more {
        push_all(&mut out, &line);
        push_all(&mut out, &chars_of(" [...]"));
        assert(Seq::<char>::empty() + line@ == line@);
    } else {
        return line_text;
    }
    let m = out.len();
    assert(out@.subrange(0, m as int) == out@);
    text_of(&out, 0, m)
}

} // verus!
