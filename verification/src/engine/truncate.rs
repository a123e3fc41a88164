//! Cutting large tool inputs down before they are stored.
//!
//! A tool input whose compact JSON text is larger than 10 KiB is stored cut
//! down, together with the size and the SHA-256 of the original text. Cutting
//! recurses: a long string keeps a prefix and says how long it was; an array
//! of more than ten items keeps ten and says how many more there were; an
//! object shares its budget among its members.

use crate::engine::state::{TruncatedInput, TruncatedInputView};
use crate::json::{compact_text, json_text, JsonValue, JsonView, MemberView};
use crate::text::{byte_count, byte_len, byte_prefix, byte_prefix_end, chars_of, decimal_chars, decimal_text, digit, push_all, text_of};
use sha2::Digest;
use vstd::prelude::*;

verus! {

/// Largest size in bytes of a tool input that is stored whole.
pub const MAX_SIZE: usize = 10240;

/// The SHA-256 digest of the UTF-8 bytes of a text.
pub uninterp spec fn sha256_of(text: Seq<char>) -> Seq<u8>;

/// The hexadecimal digit for `n`, in lower case.
pub open spec fn hex_digit(n: int) -> char {
    if n < 10 {
        digit(n as nat)
    } else if n == 10 {
        'a'
    } else if n == 11 {
        'b'
    } else if n == 12 {
        'c'
    } else if n == 13 {
        'd'
    } else if n == 14 {
        'e'
    } else {
        'f'
    }
}

/// `bytes` in hexadecimal: two lower-case digits per byte, high digit first.
pub open spec fn hex_of(bytes: Seq<u8>) -> Seq<char> {
    Seq::new(
        2 * bytes.len(),
        |i: int|
            hex_digit(
                if i % 2 == 0 {
                    bytes[i / 2] as int / 16
                } else {
                    bytes[i / 2] as int % 16
                },
            ),
    )
}

/// `sha2::Sha256::digest` on the UTF-8 bytes of `text`: the result is the
/// named digest of `text`, 32 bytes long.
#[verifier::external_body]
fn sha256_bytes(text: &str) -> (r: Vec<u8>)
    ensures
        r@ == sha256_of(text@),
        r@.len() == 32,
{
    sha2::Sha256::digest(text.as_bytes()).to_vec()
}

/// `hex::encode`: two lower-case hexadecimal digits for each byte, in order.
#[verifier::external_body]
fn hex_encode(bytes: &Vec<u8>) -> (r: String)
    ensures
        r@ == hex_of(bytes@),
{
    hex::encode(bytes)
}

/// SHA-256 of a text, as a hex string.
pub fn sha256_hex(data: &str) -> (r: String)
    ensures
        r@ == hex_of(sha256_of(data@)),
        r@.len() == 64,
{
    let digest = sha256_bytes(data);
    hex_encode(&digest)
}

/// The smaller of the budget and 200.
pub open spec fn prefix_limit(budget: nat) -> nat {
    if budget < 200 {
        budget
    } else {
        200
    }
}

/// What stands for a string too long for its budget: the longest prefix of
/// whole characters within `min(budget, 200)` bytes, and a note of the
/// string's full size.
pub open spec fn cut_text(s: Seq<char>, budget: nat) -> Seq<char> {
    byte_prefix(s, prefix_limit(budget)) + "... [truncated, "@ + decimal_text(byte_len(s))
        + " bytes total]"@
}

/// The note that stands for the items cut from an array.
pub open spec fn more_items(n: nat) -> Seq<char> {
    "... ["@ + decimal_text(n) + " more items]"@
}

/// The budget of each member of an object of `n` members.
pub open spec fn member_budget(budget: nat, n: nat) -> nat {
    if n == 0 {
        budget
    } else {
        budget / n
    }
}

/// `v` cut down to fit a budget of `budget` bytes.
pub open spec fn truncated(v: JsonView, budget: nat) -> JsonView
    decreases v,
{
    match v {
        JsonView::Str(s) => if byte_len(s) > budget {
            JsonView::Str(cut_text(s, budget))
        } else {
            v
        },
        JsonView::Object(members) => JsonView::Object(
            Seq::new(
                members.len(),
                |i: int|
                    if 0 <= i < members.len() {
                        MemberView {
                            key: members[i].key,
                            value: truncated(
                                members[i].value,
                                member_budget(budget, members.len()),
                            ),
                        }
                    } else {
                        MemberView { key: Seq::empty(), value: JsonView::Null }
                    },
            ),
        ),
        JsonView::Array(items) => if items.len() > 10 {
            JsonView::Array(
                Seq::new(
                    11,
                    |i: int|
                        if 0 <= i < 10 {
                            truncated(items[i], budget / 10)
                        } else {
                            JsonView::Str(more_items((items.len() - 10) as nat))
                        },
                ),
            )
        } else {
            v
        },
        _ => v,
    }
}

/// The string that stands for `s`, which is too long for its budget.
fn cut_string(s: &str, budget: usize) -> (r: String)
    ensures
        r@ == cut_text(s@, budget as nat),
{
    let v = chars_of(s);
    let limit: usize = if budget < 200 {
        budget
    } else {
        200
    };
    let k = byte_prefix_end(&v, limit);
    let mut out: Vec<char> = Vec::new();
    let mut i: usize = 0;
    while i < k
        invariant
            i <= k <= v.len(),
            out@ == v@.take(i as int),
        decreases k - i,
    {
        out.push(v[i]);
        assert(v@.take(i + 1) == v@.take(i as int).push(v@[i as int]));
        i += 1;
    }
    push_all(&mut out, &chars_of("... [truncated, "));
    push_all(&mut out, &decimal_chars(byte_count(s) as u128));
    push_all(&mut out, &chars_of(" bytes total]"));
    let n = out.len();
    assert(out@.subrange(0, n as int) == out@);
    text_of(&out, 0, n)
}

/// The note that stands for `n` items cut from an array.
fn more_items_note(n: usize) -> (r: JsonValue)
    ensures
        r@ == JsonView::Str(more_items(n as nat)),
{
    let mut out: Vec<char> = chars_of("... [");
    push_all(&mut out, &decimal_chars(n as u128));
    push_all(&mut out, &chars_of(" more items]"));
    let len = out.len();
    assert(out@.subrange(0, len as int) == out@);
    JsonValue::Str(text_of(&out, 0, len))
}

/// Cuts a JSON value down to fit a byte budget.
pub fn truncate_json_value(value: &JsonValue, budget: usize) -> (r: JsonValue)
    ensures
        r@ == truncated(value@, budget as nat),
    decreases value,
{
    match value {
        JsonValue::Str(s) => {
            if byte_count(s.as_str()) > budget {
                JsonValue::Str(cut_string(s.as_str(), budget))
            } else {
                value.clone()
            }
        },
        JsonValue::Object(members) => {
            let n = members.len();
            let per_key: usize = if n == 0 {
                budget
            } else {
                budget / n
            };
            let mut out: Vec<(String, JsonValue)> = Vec::new();
            let mut i: usize = 0;
            while i < n
                invariant
                    i <= n,
                    n == members.len(),
                    per_key == member_budget(budget as nat, n as nat),
                    forall|j: int|
                        0 <= j < members@.len() ==> decreases_to!(value => (#[trigger] members@[j]).1),
                    out.len() == i,
                    forall|j: int|
                        0 <= j < i ==> (#[trigger] out@[j]).0@ == members@[j].0@ && out@[j].1@
                            == truncated(members@[j].1@, per_key as nat),
                decreases n - i,
            {
                let cut = truncate_json_value(&members[i].1, per_key);
                out.push((members[i].0.clone(), cut));
                i += 1;
            }
            proof {
                crate::json::lemma_object_view(out);
                crate::json::lemma_object_view(*members);
                assert(crate::json::member_views(out@) =~= truncated(
                    value@,
                    budget as nat,
                )->Object_0);
            }
            JsonValue::Object(out)
        },
        JsonValue::Array(items) => {
            if items.len() > 10 {
                let mut out: Vec<JsonValue> = Vec::new();
                let mut i: usize = 0;
                while i < 10
                    invariant
                        i <= 10 < items.len(),
                        forall|j: int|
                            0 <= j < items@.len() ==> decreases_to!(value => #[trigger] items@[j]),
                        out.len() == i,
                        forall|j: int|
                            0 <= j < i ==> (#[trigger] out@[j])@ == truncated(
                                items@[j]@,
                                (budget / 10) as nat,
                            ),
                    decreases 10 - i,
                {
                    let cut = truncate_json_value(&items[i], budget / 10);
                    out.push(cut);
                    i += 1;
                }
                out.push(more_items_note(items.len() - 10));
                proof {
                    crate::json::lemma_array_view(out);
                    crate::json::lemma_array_view(*items);
                    assert(crate::json::item_views(out@) =~= truncated(
                        value@,
                        budget as nat,
                    )->Array_0);
                }
                JsonValue::Array(out)
            } else {
                value.clone()
            }
        },
        _ => value.clone(),
    }
}

/// A tool input stored whole.
pub open spec fn stored_whole(input: JsonView) -> TruncatedInputView {
    TruncatedInputView { value: input, truncated: false, original_hash: None, original_size: None }
}

/// A tool input stored cut down, with the size and the hash of its original text.
pub open spec fn stored_cut(input: JsonView, size: usize, hash: Seq<char>) -> TruncatedInputView {
    TruncatedInputView {
        value: truncated(input, MAX_SIZE as nat),
        truncated: true,
        original_hash: Some(hash),
        original_size: Some(size),
    }
}

/// The record stored for a tool input whose compact JSON text is `text`.
pub open spec fn stored_input(input: JsonView, text: Seq<char>) -> TruncatedInputView {
    if byte_len(text) <= MAX_SIZE {
        stored_whole(input)
    } else {
        stored_cut(input, byte_len(text) as usize, hex_of(sha256_of(text)))
    }
}

impl TruncatedInput {
    /// Stores a tool input whole.
    pub fn whole(input: JsonValue) -> (r: Self)
        ensures
            r@ == stored_whole(input@),
    {
        TruncatedInput { value: input, truncated: false, original_hash: None, original_size: None }
    }

    /// Stores a tool input cut down; `size` and `hash` are those of its original text.
    pub fn cut(input: &JsonValue, size: usize, hash: String) -> (r: Self)
        ensures
            r@ == stored_cut(input@, size, hash@),
    {
        TruncatedInput {
            value: truncate_json_value(input, MAX_SIZE),
            truncated: true,
            original_hash: Some(hash),
            original_size: Some(size),
        }
    }

    /// Stores a tool input: whole where its compact JSON text is at most
    /// 10 KiB, cut down otherwise.
    pub fn from_value(input: JsonValue) -> (r: Self)
        ensures
            r@ == stored_input(input@, json_text(input@)),
            byte_len(json_text(input@)) <= MAX_SIZE ==> r@ == stored_whole(input@),
            r@.truncated ==> (r@.original_hash matches Some(hash) && hash.len() == 64),
    {
        let serialized = compact_text(&input);
        let size = byte_count(serialized.as_str());
        if size <= MAX_SIZE {
            return Self::whole(input);
        }
        let hash = sha256_hex(serialized.as_str());
        Self::cut(&input, size, hash)
    }
}

} // verus!
