//! Configuration records and their defaults.
//!
//! Reading the configuration file and the environment is the host's part; the
//! engine takes the records as plain values.

use crate::engine::state::views;
use crate::text::{lowercase_of, parse_decimal, str_eq, to_lower};
use vstd::prelude::*;

verus! {

/// Review mode.
#[derive(Clone, Copy, Debug, PartialEq, Eq, Structural)]
pub enum ReviewMode {
    /// Review every prompt.
    Always,
    /// Review when the opt-in marker is used (default).
    Prompt,
    /// Disable review entirely.
    Never,
}

/// How long a gate approval lasts.
#[derive(Clone, Copy, Debug, PartialEq, Eq, Structural)]
pub enum ApprovalScope {
    /// Once approved, all gated tools are allowed until the session ends.
    Session,
    /// Approval resets when the user sends a new prompt (default).
    Prompt,
    /// Every gated tool call requires fresh review.
    Tool,
}

/// Storage configuration.
#[derive(Clone, Debug)]
pub struct StorageConfig {
    /// Path to the home directory of the engine's files.
    pub path: String,
}

/// Gate configuration for automatic review triggers.
#[derive(Clone, Debug)]
pub struct GatesConfig {
    /// Tool patterns to gate (glob syntax), most specific first.
    pub tools: Vec<String>,
    pub approval_scope: ApprovalScope,
    /// Optional lifetime of an approval, in seconds.
    pub approval_ttl_seconds: Option<u64>,
}

/// The mathematical model of [`GatesConfig`].
pub struct GatesView {
    pub tools: Seq<Seq<char>>,
    pub approval_scope: ApprovalScope,
    pub approval_ttl_seconds: Option<u64>,
}

impl View for GatesConfig {
    type V = GatesView;

    open spec fn view(&self) -> GatesView {
        GatesView {
            tools: views(self.tools@),
            approval_scope: self.approval_scope,
            approval_ttl_seconds: self.approval_ttl_seconds,
        }
    }
}

/// Review configuration.
#[derive(Clone, Debug)]
pub struct ReviewConfig {
    pub mode: ReviewMode,
    pub gates: GatesConfig,
}

/// Circuit breaker configuration.
#[derive(Clone, Copy, Debug, PartialEq, Eq, Structural)]
pub struct CircuitBreakerConfig {
    /// Maximum blocks before tripping.
    pub max_blocks: u32,
    /// Cooldown in seconds (informational; the engine does not enforce it).
    pub cooldown_seconds: u64,
}

/// Cleanup configuration.
#[derive(Clone, Copy, Debug, PartialEq, Eq, Structural)]
pub struct CleanupConfig {
    /// Sessions older than this many days are cleaned up.
    pub retention_days: u32,
}

/// External model configuration.
#[derive(Clone, Debug)]
pub struct ExternalModelsConfig {
    /// Path to the codex CLI (empty to disable).
    pub codex: String,
    /// Path to the gemini CLI (empty to disable).
    pub gemini: String,
}

/// One entry of the weights for random template selection.
#[derive(Clone, Debug, PartialEq, Eq)]
pub struct TemplateWeight {
    pub id: String,
    pub weight: u32,
}

/// The mathematical model of [`TemplateWeight`].
pub struct TemplateWeightView {
    pub id: Seq<char>,
    pub weight: u32,
}

impl View for TemplateWeight {
    type V = TemplateWeightView;

    open spec fn view(&self) -> TemplateWeightView {
        TemplateWeightView { id: self.id@, weight: self.weight }
    }
}

/// Template configuration.
#[derive(Clone, Debug)]
pub struct TemplateConfig {
    /// A template id, or `"random"`.
    pub active: String,
    /// Weights for random selection, walked in this order. A well-formed
    /// configuration has each id once.
    pub weights: Vec<TemplateWeight>,
}

/// No template id occurs twice among the weights.
pub open spec fn distinct_weights(weights: Seq<TemplateWeightView>) -> bool {
    forall|i: int, j: int|
        0 <= i < j < weights.len() ==> (#[trigger] weights[i]).id != (#[trigger] weights[j]).id
}

/// The mathematical model of [`TemplateConfig`].
pub struct TemplateConfigView {
    pub active: Seq<char>,
    pub weights: Seq<TemplateWeightView>,
}

impl View for TemplateConfig {
    type V = TemplateConfigView;

    open spec fn view(&self) -> TemplateConfigView {
        TemplateConfigView { active: self.active@, weights: views(self.weights@) }
    }
}

/// Trace configuration.
#[derive(Clone, Copy, Debug, PartialEq, Eq, Structural)]
pub struct TraceConfig {
    /// Maximum trace events per session.
    pub max_events: usize,
}

/// Main configuration record.
#[derive(Clone, Debug)]
pub struct Config {
    pub storage: StorageConfig,
    pub review: ReviewConfig,
    pub circuit_breaker: CircuitBreakerConfig,
    pub cleanup: CleanupConfig,
    pub external_models: ExternalModelsConfig,
    pub templates: TemplateConfig,
    pub trace: TraceConfig,
}

impl Default for ReviewMode {
    fn default() -> (r: Self)
        ensures
            r == ReviewMode::Prompt,
    {
        ReviewMode::Prompt
    }
}

impl Default for ApprovalScope {
    fn default() -> (r: Self)
        ensures
            r == ApprovalScope::Prompt,
    {
        ApprovalScope::Prompt
    }
}

impl Default for StorageConfig {
    /// The relative directory `.roz`; the host puts the user's home in front of it.
    fn default() -> (r: Self)
        ensures
            r.path@ == ".roz"@,
    {
        StorageConfig { path: ".roz".to_owned() }
    }
}

impl Default for GatesConfig {
    fn default() -> (r: Self)
        ensures
            r@ == (GatesView {
                tools: Seq::empty(),
                approval_scope: ApprovalScope::Prompt,
                approval_ttl_seconds: None,
            }),
    {
        let r = GatesConfig {
            tools: Vec::new(),
            approval_scope: ApprovalScope::Prompt,
            approval_ttl_seconds: None,
        };
        assert(r@.tools =~= Seq::empty());
        r
    }
}

impl Default for ReviewConfig {
    fn default() -> (r: Self)
        ensures
            r.mode == ReviewMode::Prompt,
            r.gates@ == (GatesView {
                tools: Seq::empty(),
                approval_scope: ApprovalScope::Prompt,
                approval_ttl_seconds: None,
            }),
    {
        ReviewConfig { mode: ReviewMode::Prompt, gates: GatesConfig::default() }
    }
}

impl Default for CircuitBreakerConfig {
    fn default() -> (r: Self)
        ensures
            r == (CircuitBreakerConfig { max_blocks: 3, cooldown_seconds: 300 }),
    {
        CircuitBreakerConfig { max_blocks: 3, cooldown_seconds: 300 }
    }
}

impl Default for CleanupConfig {
    fn default() -> (r: Self)
        ensures
            r == (CleanupConfig { retention_days: 7 }),
    {
        CleanupConfig { retention_days: 7 }
    }
}

impl Default for ExternalModelsConfig {
    fn default() -> (r: Self)
        ensures
            r.codex@ == "codex"@,
            r.gemini@ == "gemini"@,
    {
        ExternalModelsConfig { codex: "codex".to_owned(), gemini: "gemini".to_owned() }
    }
}

/// The template configuration in force where none is given: the template
/// `default`, and all the weight on it.
pub open spec fn default_templates() -> TemplateConfigView {
    TemplateConfigView {
        active: "default"@,
        weights: seq![TemplateWeightView { id: "default"@, weight: 100 }],
    }
}

impl TemplateConfig {
    /// The configuration is well formed: each template id has one weight.
    pub open spec fn well_formed(&self) -> bool {
        distinct_weights(self@.weights)
    }

    /// Whether the configuration is well formed.
    pub fn is_well_formed(&self) -> (r: bool)
        ensures
            r == self.well_formed(),
    {
        let ghost ws = views(self.weights@);
        let mut j: usize = 0;
        while j < self.weights.len()
            invariant
                j <= self.weights.len(),
                ws == views(self.weights@),
                forall|a: int, b: int| 0 <= a < b < j ==> (#[trigger] ws[a]).id != (#[trigger] ws[b]).id,
            decreases self.weights.len() - j,
        {
            let mut i: usize = 0;
            while i < j
                invariant
                    i <= j < self.weights.len(),
                    ws == views(self.weights@),
                    forall|a: int| 0 <= a < i ==> (#[trigger] ws[a]).id != ws[j as int].id,
                decreases j - i,
            {
                if str_eq(self.weights[i].id.as_str(), self.weights[j].id.as_str()) {
                    assert(ws[i as int].id == ws[j as int].id);
                    return false;
                }
                i += 1;
            }
            j += 1;
        }
        true
    }
}

impl Default for TemplateConfig {
    fn default() -> (r: Self)
        ensures
            r@ == default_templates(),
            r.well_formed(),
    {
        let mut weights: Vec<TemplateWeight> = Vec::new();
        weights.push(TemplateWeight { id: "default".to_owned(), weight: 100 });
        let r = TemplateConfig { active: "default".to_owned(), weights };
        assert(r@.weights =~= default_templates().weights);
        r
    }
}

impl Default for TraceConfig {
    fn default() -> (r: Self)
        ensures
            r == (TraceConfig { max_events: 500 }),
    {
        TraceConfig { max_events: 500 }
    }
}

impl Default for Config {
    fn default() -> (r: Self)
        ensures
            r.storage.path@ == ".roz"@,
            r.review.mode == ReviewMode::Prompt,
            r.review.gates@ == (GatesView {
                tools: Seq::empty(),
                approval_scope: ApprovalScope::Prompt,
                approval_ttl_seconds: None,
            }),
            r.circuit_breaker == (CircuitBreakerConfig { max_blocks: 3, cooldown_seconds: 300 }),
            r.cleanup == (CleanupConfig { retention_days: 7 }),
            r.external_models.codex@ == "codex"@,
            r.external_models.gemini@ == "gemini"@,
            r.templates@ == default_templates(),
            r.templates.well_formed(),
            r.trace == (TraceConfig { max_events: 500 }),
    {
        Config {
            storage: StorageConfig::default(),
            review: ReviewConfig::default(),
            circuit_breaker: CircuitBreakerConfig::default(),
            cleanup: CleanupConfig::default(),
            external_models: ExternalModelsConfig::default(),
            templates: TemplateConfig::default(),
            trace: TraceConfig::default(),
        }
    }
}

impl GatesConfig {
    /// Whether any tool pattern is configured.
    pub fn is_enabled(&self) -> (r: bool)
        ensures
            r == (self@.tools.len() > 0),
    {
        !self.tools.is_empty()
    }
}

/// What the host read from the environment, one entry per variable that was set.
#[derive(Clone, Debug)]
pub struct EnvOverrides {
    /// `ROZ_STORAGE_PATH`
    pub storage_path: Option<String>,
    /// `ROZ_HOME`
    pub home: Option<String>,
    /// `ROZ_MAX_BLOCKS`
    pub max_blocks: Option<String>,
    /// `ROZ_COOLDOWN_SECONDS`
    pub cooldown_seconds: Option<String>,
    /// `ROZ_REVIEW_MODE`
    pub review_mode: Option<String>,
    /// `ROZ_MAX_EVENTS`
    pub max_events: Option<String>,
    /// `ROZ_RETENTION_DAYS`
    pub retention_days: Option<String>,
}

/// The unsigned number that `s` writes, where it is at most `max`: digits
/// after an optional `+`.
pub open spec fn parse_unsigned(s: Seq<char>, max: int) -> Option<int> {
    if s.len() > 0 && s[0] == '-' {
        None
    } else {
        match parse_decimal(s) {
            Some(v) => if v <= max {
                Some(v)
            } else {
                None
            },
            None => None,
        }
    }
}

/// The unsigned number that an environment variable writes, if it is set and writes one.
pub open spec fn number_in(value: Option<String>, max: int) -> Option<int> {
    match value {
        Some(s) => parse_unsigned(s@, max),
        None => None,
    }
}

/// The review mode that a name in lower case names; any name other than
/// `always` and `never` names `prompt`.
pub open spec fn mode_named(lower: Seq<char>) -> ReviewMode {
    if lower == "always"@ {
        ReviewMode::Always
    } else if lower == "never"@ {
        ReviewMode::Never
    } else {
        ReviewMode::Prompt
    }
}

/// The review mode that `text` names, whatever the case of its letters.
pub open spec fn mode_of(text: Seq<char>) -> ReviewMode {
    mode_named(lowercase_of(text))
}

/// Reads a review mode's name that is already in lower case.
pub fn mode_in_lower_case(lower: &str) -> (r: ReviewMode)
    ensures
        r == mode_named(lower@),
{
    if str_eq(lower, "always") {
        ReviewMode::Always
    } else if str_eq(lower, "never") {
        ReviewMode::Never
    } else {
        ReviewMode::Prompt
    }
}

/// The storage path in force: `ROZ_STORAGE_PATH`, else `ROZ_HOME`, else what was configured.
pub open spec fn storage_path_of(configured: Seq<char>, env: EnvOverrides) -> Seq<char> {
    match (env.storage_path, env.home) {
        (Some(p), _) => p@,
        (None, Some(h)) => h@,
        (None, None) => configured,
    }
}

/// `fallback` unless `found` holds a number.
pub open spec fn number_or(found: Option<int>, fallback: int) -> int {
    match found {
        Some(v) => v,
        None => fallback,
    }
}

/// Reads the unsigned number that `value` writes, where it is at most `max`.
fn read_unsigned(value: &Option<String>, max: u64) -> (r: Option<u64>)
    ensures
        match number_in(*value, max as int) {
            Some(v) => 0 <= v <= max && r == Some(v as u64),
            None => r is None,
        },
{
    match value {
        Some(s) => {
            proof {
                if parse_decimal(s@) is Some {
                    crate::text::lemma_parse_sign(s@);
                }
            }
            let v = crate::text::chars_of(s.as_str());
            if v.len() > 0 && v[0] == '-' {
                return None;
            }
            match crate::text::read_integer(s.as_str()) {
                Some(k) => {
                    if 0 <= k && k <= max as i128 {
                        Some(k as u64)
                    } else {
                        None
                    }
                },
                None => None,
            }
        },
        None => None,
    }
}

/// Applies the overrides that the environment holds to a configuration. A
/// variable that is not set, or whose value is no number where a number is
/// wanted, leaves the configured value in place.
pub fn apply_env_overrides(config: &mut Config, env: &EnvOverrides)
    ensures
        final(config).storage.path@ == storage_path_of(old(config).storage.path@, *env),
        final(config).circuit_breaker.max_blocks == number_or(
            number_in(env.max_blocks, u32::MAX as int),
            old(config).circuit_breaker.max_blocks as int,
        ),
        final(config).circuit_breaker.cooldown_seconds == number_or(
            number_in(env.cooldown_seconds, u64::MAX as int),
            old(config).circuit_breaker.cooldown_seconds as int,
        ),
        final(config).review.mode == match env.review_mode {
            Some(m) => mode_of(m@),
            None => old(config).review.mode,
        },
        final(config).trace.max_events == number_or(
            number_in(env.max_events, usize::MAX as int),
            old(config).trace.max_events as int,
        ),
        final(config).cleanup.retention_days == number_or(
            number_in(env.retention_days, u32::MAX as int),
            old(config).cleanup.retention_days as int,
        ),
        final(config).review.gates == old(config).review.gates,
        final(config).templates == old(config).templates,
        final(config).external_models == old(config).external_models,
{
    match &env.storage_path {
        Some(p) => {
            config.storage.path = p.clone();
        },
        None => match &env.home {
            Some(h) => {
                config.storage.path = h.clone();
            },
            None => {},
        },
    }
    if let Some(v) = read_unsigned(&env.max_blocks, u32::MAX as u64) {
        config.circuit_breaker.max_blocks = v as u32;
    }
    if let Some(v) = read_unsigned(&env.cooldown_seconds, u64::MAX) {
        config.circuit_breaker.cooldown_seconds = v;
    }
    if let Some(m) = &env.review_mode {
        let lower = to_lower(m.as_str());
        config.review.mode = mode_in_lower_case(lower.as_str());
    }
    if let Some(v) = read_unsigned(&env.max_events, usize::MAX as u64) {
        config.trace.max_events = v as usize;
    }
    if let Some(v) = read_unsigned(&env.retention_days, u32::MAX as u64) {
        config.cleanup.retention_days = v as u32;
    }
}

} // verus!
