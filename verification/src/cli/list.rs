//! Text helpers of the `list` command.

use crate::cli::context::{first_line, split_first_line};
use crate::text::{byte_count, byte_len, byte_prefix, byte_prefix_end, chars_of, push_all, text_of};
use vstd::prelude::*;

verus! {

/// Default number of sessions to show.
pub const DEFAULT_LIMIT: usize = 20;

/// Largest size in bytes of a prompt preview.
pub const PROMPT_PREVIEW_LEN: usize = 50;

/// The preview of a prompt: its first line, cut to the longest prefix of whole
/// characters within 50 bytes and followed by `...` where it is longer.
pub open spec fn prompt_preview(prompt: Option<Seq<char>>) -> Seq<char> {
    match prompt {
        Some(p) => {
            let line = first_line(p);
            if byte_len(line) > PROMPT_PREVIEW_LEN {
                byte_prefix(line, PROMPT_PREVIEW_LEN as nat) + "..."@
            } else {
                line
            }
        },
        None => "(no prompt)"@,
    }
}

/// Formats the preview of a prompt.
pub fn format_prompt_preview(prompt: Option<&str>) -> (r: String)
    ensures
        r@ == prompt_preview(crate::cli::decide::text_opt(prompt)),
{
    match prompt {
        Some(p) => {
            let v = chars_of(p);
            let (line, _) = split_first_line(&v);
            let n = line.len();
            assert(line@.subrange(0, n as int) == line@);
            let line_text = text_of(&line, 0, n);
            if byte_count(line_text.as_str()) > PROMPT_PREVIEW_LEN {
                let k = byte_prefix_end(&line, PROMPT_PREVIEW_LEN);
                let mut out: Vec<char> = Vec::new();
                let mut i: usize = 0;
                while i < k
                    invariant
                        i <= k <= line.len(),
                        out@ == line@.take(i as int),
                    decreases k - i,
                {
                    out.push(line[i]);
                    assert(line@.take(i + 1) == line@.take(i as int).push(line@[i as int]));
                    i += 1;
                }
                push_all(&mut out, &chars_of("..."));
                let m = out.len();
                assert(out@.subrange(0, m as int) == out@);
                text_of(&out, 0, m)
            } else {
                line_text
            }
        },
        None => "(no prompt)".to_owned(),
    }
}

} // verus!
