//! Block-message templates: selection, lookup and rendering.

use crate::config::{TemplateConfig, TemplateConfigView, TemplateWeight, TemplateWeightView};
use crate::engine::state::views;
use crate::hooks::input::{HostContext, TemplateFileView};
use crate::text::{has_prefix, str_eq, substitute};
use vstd::prelude::*;

verus! {

/// Block template used where the host found none on disk.
pub const DEFAULT_BLOCK_TEMPLATE: &'static str =
    "Review required before exit.\n\nUse the **Task** tool with these parameters:\n\n- `subagent_type`: `\"roz:roz\"`\n- `model`: `\"opus\"`\n\nPrompt template:\n\n```\nSESSION_ID={{session_id}}\n\n## Summary\n[What you did and why]\n\n## Files Changed\n[List of modified files]\n```\n";

/// The sum of the weights from index `i` on.
pub open spec fn weight_from(weights: Seq<TemplateWeightView>, i: int) -> nat
    decreases weights.len() - i,
{
    if 0 <= i < weights.len() {
        weights[i].weight as nat + weight_from(weights, i + 1)
    } else {
        0
    }
}

/// The sum of all weights.
pub open spec fn total_weight(weights: Seq<TemplateWeightView>) -> nat {
    weight_from(weights, 0)
}

/// Walks the entries from index `i` with the draw `roll`: the first entry
/// whose weight exceeds what is left of the draw is chosen.
pub open spec fn pick_from(weights: Seq<TemplateWeightView>, i: int, roll: nat) -> Seq<char>
    decreases weights.len() - i,
{
    if 0 <= i < weights.len() {
        if roll < weights[i].weight {
            weights[i].id
        } else {
            pick_from(weights, i + 1, (roll - weights[i].weight) as nat)
        }
    } else {
        "default"@
    }
}

/// The template chosen by the draw `roll`.
pub open spec fn pick(weights: Seq<TemplateWeightView>, roll: nat) -> Seq<char> {
    pick_from(weights, 0, roll)
}

/// `id` is what some draw below the total weight chooses, or the fallback
/// `default` where the weights sum to zero.
pub open spec fn is_draw(weights: Seq<TemplateWeightView>, id: Seq<char>) -> bool {
    if total_weight(weights) == 0 {
        id == "default"@
    } else {
        exists|roll: nat| roll < total_weight(weights) && id == pick(weights, roll)
    }
}

/// `id` is a template that the configuration may select.
pub open spec fn may_select(config: TemplateConfigView, id: Seq<char>) -> bool {
    if config.active == "random"@ {
        is_draw(config.weights, id)
    } else {
        id == config.active
    }
}

/// A draw below the total weight always lands on one of the entries.
pub proof fn lemma_pick_is_entry(weights: Seq<TemplateWeightView>, i: int, roll: nat)
    requires
        0 <= i <= weights.len(),
        roll < weight_from(weights, i),
    ensures
        exists|k: int| i <= k < weights.len() && pick_from(weights, i, roll) == weights[k].id,
    decreases weights.len() - i,
{
    if i < weights.len() {
        if roll < weights[i].weight {
            assert(pick_from(weights, i, roll) == weights[i].id);
        } else {
            lemma_pick_is_entry(weights, i + 1, (roll - weights[i].weight) as nat);
        }
    }
}

/// The sum of the weights.
pub fn sum_weights(weights: &Vec<TemplateWeight>) -> (total: u128)
    ensures
        total == total_weight(views(weights@)),
{
    let ghost ws = views(weights@);
    let mut total: u128 = 0;
    let mut i: usize = weights.len();
    while i > 0
        invariant
            i <= weights.len(),
            ws == views(weights@),
            total == weight_from(ws, i as int),
            total <= (weights.len() - i) * 0xFFFF_FFFF,
        decreases i,
    {
        i -= 1;
        total = total + weights[i].weight as u128;
    }
    total
}

/// The template that the draw `roll` chooses.
pub fn pick_weighted(weights: &Vec<TemplateWeight>, roll: u128) -> (r: String)
    ensures
        r@ == pick(views(weights@), roll as nat),
{
    let ghost ws = views(weights@);
    let mut left: u128 = roll;
    let mut i: usize = 0;
    while i < weights.len()
        invariant
            i <= weights.len(),
            ws == views(weights@),
            pick(ws, roll as nat) == pick_from(ws, i as int, left as nat),
        decreases weights.len() - i,
    {
        let w = weights[i].weight as u128;
        if left < w {
            return weights[i].id.clone();
        }
        left = left - w;
        i += 1;
    }
    "default".to_owned()
}

/// Selects a template at random, in proportion to the weights. The draw is
/// taken from the clock. Where the weights do not sum to zero, the template
/// selected is one of the entries.
pub fn weighted_random(weights: &Vec<TemplateWeight>) -> (r: String)
    ensures
        is_draw(views(weights@), r@),
        total_weight(views(weights@)) > 0 ==> exists|k: int|
            0 <= k < weights@.len() && r@ == (#[trigger] weights@[k]).id@,
{
    let total = sum_weights(weights);
    if total == 0 {
        return "default".to_owned();
    }
    let t = crate::time::now();
    let ticks: u128 = if t.secs < 0 {
        t.nanos as u128
    } else {
        t.secs as u128 * 1_000_000_000 + t.nanos as u128
    };
    let roll = ticks % total;
    proof {
        lemma_pick_is_entry(views(weights@), 0, roll as nat);
        let k = choose|k: int|
            0 <= k < weights@.len() && pick_from(views(weights@), 0, roll as nat) == views(
                weights@,
            )[k].id;
        assert(views(weights@)[k].id == weights@[k].id@);
    }
    pick_weighted(weights, roll)
}

/// Selects the template for a block message: the active template, or a
/// weighted draw where the active template is `random`.
pub fn select_template(config: &TemplateConfig) -> (r: String)
    ensures
        may_select(config@, r@),
{
    if str_eq(config.active.as_str(), "random") {
        weighted_random(&config.weights)
    } else {
        config.active.clone()
    }
}

/// The first index at or after `i` whose file has the id `id` (`files.len()` if none).
pub open spec fn file_index(files: Seq<TemplateFileView>, id: Seq<char>, i: int) -> int
    decreases files.len() - i,
{
    if 0 <= i < files.len() && files[i].id != id {
        file_index(files, id, i + 1)
    } else {
        i
    }
}

/// The text of the template `id`: the first file of that id, or the built-in template.
pub open spec fn template_text(files: Seq<TemplateFileView>, id: Seq<char>) -> Seq<char> {
    let i = file_index(files, id, 0);
    if 0 <= i < files.len() {
        files[i].text
    } else {
        DEFAULT_BLOCK_TEMPLATE@
    }
}

/// Loads a template by id from what the host found, falling back to the built-in template.
pub fn load_template(id: &str, host: &HostContext) -> (r: String)
    ensures
        r@ == template_text(views(host.templates@), id@),
{
    let ghost files = views(host.templates@);
    let mut i: usize = 0;
    while i < host.templates.len()
        invariant
            i <= host.templates.len(),
            files == views(host.templates@),
            file_index(files, id@, 0) == file_index(files, id@, i as int),
        decreases host.templates.len() - i,
    {
        if str_eq(host.templates[i].id.as_str(), id) {
            return host.templates[i].text.clone();
        }
        i += 1;
    }
    DEFAULT_BLOCK_TEMPLATE.to_owned()
}

/// `template` with the session id put in place of every `{{session_id}}`.
pub open spec fn rendered(template: Seq<char>, session_id: Seq<char>) -> Seq<char> {
    substitute(template, "{{session_id}}"@, session_id)
}

/// Renders a block template for a session.
pub fn render_template(template: &str, session_id: &str) -> (r: String)
    ensures
        r@ == rendered(template@, session_id@),
{
    crate::text::replace_all(template, "{{session_id}}", session_id)
}

/// The name of the file that holds the template `id`.
pub open spec fn template_file_name_of(id: Seq<char>) -> Seq<char> {
    "block-"@ + id + ".md"@
}

/// The id of the template that the file `name` holds: what stands between
/// `block-` and `.md`, for a name of that form.
pub open spec fn template_id_of(name: Seq<char>) -> Option<Seq<char>> {
    if name.len() >= "block-"@.len() + ".md"@.len() && has_prefix(name, "block-"@) && name.skip(
        name.len() - ".md"@.len(),
    ) == ".md"@ {
        Some(name.subrange("block-"@.len() as int, name.len() - ".md"@.len()))
    } else {
        None
    }
}

/// The name of the file that holds a template.
pub fn template_file_name(id: &str) -> (r: String)
    ensures
        r@ == template_file_name_of(id@),
{
    let mut out = String::new();
    out.append("block-");
    out.append(id);
    out.append(".md");
    assert(out@ =~= template_file_name_of(id@));
    out
}

/// The id of the template that a file holds, by the file's name.
pub fn template_id_in(name: &str) -> (r: Option<String>)
    ensures
        crate::engine::state::opt_view(r) == template_id_of(name@),
{
    let v = crate::text::chars_of(name);
    let head = crate::text::chars_of("block-");
    let tail = crate::text::chars_of(".md");
    let n = v.len();
    if n < head.len() || n - head.len() < tail.len() {
        return None;
    }
    assert(v@.skip(0) == v@);
    if !crate::text::matches_at(&v, 0, &head) {
        return None;
    }
    let cut = n - tail.len();
    let ends = crate::text::matches_at(&v, cut, &tail);
    assert(v@.skip(cut as int).subrange(0, tail.len() as int) == v@.skip(cut as int));
    if !ends {
        return None;
    }
    Some(crate::text::text_of(&v, head.len(), cut))
}

} // verus!
