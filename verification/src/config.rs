//! Gateway configuration: legacy worker/judge/executor models, the Unified
//! Model Registry of the Fusion pipeline, smart-routing thresholds, token
//! budgets and workspaces, with the defaults the configuration file falls
//! back to.

use vstd::prelude::*;
use crate::strmap::{StrMap, lookup, keys_of};
use crate::types::{strs, clone_strings, clone_opt};
use crate::text::owned;

verus! {

broadcast use vstd::string::group_string_axioms;

/// Model endpoint configuration used for workers, judge and executor (legacy).
#[derive(Debug, Clone)]
pub struct ModelConfig {
    pub name: String,
    pub endpoint: String,
    pub model_id: String,
    pub api_key: Option<String>,
}

/// Complexity tier for smart routing.
#[derive(Debug, Clone, Copy, PartialEq, Eq, Structural)]
pub enum ModelTier {
    Simple,
    Medium,
    Complex,
}

/// A model entry in the Unified Model Registry.
#[derive(Debug, Clone)]
pub struct ModelEntry {
    pub provider: String,
    pub endpoint: String,
    pub model_id: String,
    pub api_key: Option<String>,
    /// Complexity tier this model is assigned to (for smart routing).
    pub tier: Option<ModelTier>,
    /// Whether this model runs locally (zero cost for budget tracking).
    pub is_local: Option<bool>,
    /// Custom chat completions path (e.g. "/api/paas/v4/chat/completions").
    pub chat_path: Option<String>,
}

/// Smart routing thresholds.
#[derive(Debug, Clone, Copy)]
pub struct RoutingConfig {
    /// Minimum message length (bytes) to consider Medium complexity.
    pub medium_threshold: usize,
    /// Minimum message length (bytes) to consider Complex.
    pub complex_threshold: usize,
    /// File mention count threshold for Complex.
    pub file_mention_threshold: usize,
}

/// Default Medium length threshold.
pub fn default_medium_threshold() -> (r: usize)
    ensures
        r == 200,
{
    200
}

/// Default Complex length threshold.
pub fn default_complex_threshold() -> (r: usize)
    ensures
        r == 800,
{
    800
}

/// Default Complex file-mention threshold.
pub fn default_file_mention_threshold() -> (r: usize)
    ensures
        r == 3,
{
    3
}

impl Default for RoutingConfig {
    fn default() -> (r: Self)
        ensures
            r.medium_threshold == 200,
            r.complex_threshold == 800,
            r.file_mention_threshold == 3,
    {
        Self {
            medium_threshold: default_medium_threshold(),
            complex_threshold: default_complex_threshold(),
            file_mention_threshold: default_file_mention_threshold(),
        }
    }
}

/// Token budget limits.
#[derive(Debug, Clone, Copy)]
pub struct BudgetConfig {
    /// Daily cloud token limit (0 = unlimited).
    pub daily_limit: u64,
    /// Monthly cloud token limit (0 = unlimited).
    pub monthly_limit: u64,
    /// Minimum number of seconds between two writes of the budget state.
    pub persist_interval_secs: u64,
}

/// Default persistence interval of the budget state.
pub fn default_persist_interval() -> (r: u64)
    ensures
        r == 60,
{
    60
}

impl Default for BudgetConfig {
    fn default() -> (r: Self)
        ensures
            r.daily_limit == 0,
            r.monthly_limit == 0,
            r.persist_interval_secs == 60,
    {
        Self { daily_limit: 0, monthly_limit: 0, persist_interval_secs: default_persist_interval() }
    }
}

/// AI complexity classifier configuration: requests to the Fusion alias are
/// pre-classified, and Simple ones go directly to `simple_target`.
#[derive(Debug, Clone)]
pub struct ClassifierConfig {
    /// API endpoint base URL.
    pub endpoint: String,
    pub api_key: Option<String>,
    /// Model ID to send in the request.
    pub model_id: String,
    /// Custom chat completions path.
    pub chat_path: Option<String>,
    /// Timeout in seconds for the classifier call.
    pub timeout_secs: u64,
    /// Model name (key in `fusion.models`) to forward Simple requests to.
    pub simple_target: String,
}

/// Default classifier timeout in seconds.
pub fn default_classifier_timeout() -> (r: u64)
    ensures
        r == 5,
{
    5
}

/// Fusion deliberation pipeline configuration.
#[derive(Debug, Clone)]
pub struct FusionConfig {
    pub default_outer_model: String,
    pub default_judge_model: String,
    pub timeout_seconds: u64,
    /// Named lists of panel models.
    pub presets: StrMap<Vec<String>>,
    /// The Unified Model Registry.
    pub models: StrMap<ModelEntry>,
    /// Planned: multi-turn debate between panel models (not yet implemented).
    pub enable_debate: bool,
    /// Planned: fact-checking pass after judge synthesis (not yet implemented).
    pub enable_fact_check: bool,
    pub enable_self_healing: bool,
    /// Smart routing configuration.
    pub routing: Option<RoutingConfig>,
    /// Token budget configuration.
    pub budget: Option<BudgetConfig>,
    /// AI complexity classifier.
    pub classifier: Option<ClassifierConfig>,
}

/// Default outer model name.
pub fn default_outer_model() -> (r: String)
    ensures
        r@ == "default"@,
{
    owned("default")
}

/// Default judge model name.
pub fn default_judge_model() -> (r: String)
    ensures
        r@ == "default"@,
{
    owned("default")
}

/// Default Fusion timeout in seconds.
pub fn default_fusion_timeout() -> (r: u64)
    ensures
        r == 30,
{
    30
}

impl Default for FusionConfig {
    fn default() -> (r: Self)
        ensures
            r.default_outer_model@ == "default"@,
            r.default_judge_model@ == "default"@,
            r.timeout_seconds == 30,
            r.presets@.len() == 0,
            r.models@.len() == 0,
            !r.enable_debate && !r.enable_fact_check && !r.enable_self_healing,
            r.routing is None && r.budget is None && r.classifier is None,
    {
        Self {
            default_outer_model: default_outer_model(),
            default_judge_model: default_judge_model(),
            timeout_seconds: default_fusion_timeout(),
            presets: StrMap::new(),
            models: StrMap::new(),
            enable_debate: false,
            enable_fact_check: false,
            enable_self_healing: false,
            routing: None,
            budget: None,
            classifier: None,
        }
    }
}

/// Panel models for a request: the preset named by a single-element list,
/// otherwise the list itself.
pub open spec fn panel_models_for(presets: Seq<(String, Vec<String>)>, models: Seq<String>) -> Seq<Seq<char>> {
    if models.len() == 1 && lookup(presets, models[0]@) is Some {
        strs(lookup(presets, models[0]@)->0@)
    } else {
        strs(models)
    }
}

impl FusionConfig {
    /// Looks up a model entry by its registry name.
    pub fn get_model(&self, name: &str) -> (r: Option<&ModelEntry>)
        ensures
            match r {
                Some(e) => lookup(self.models@, name@) == Some(*e),
                None => lookup(self.models@, name@) is None,
            },
    {
        self.models.get(name)
    }

    /// Resolves panel models from a preset name, or returns the raw list.
    pub fn resolve_panel_models(&self, models: &[String]) -> (r: Vec<String>)
        ensures
            strs(r@) == panel_models_for(self.presets@, models@),
    {
        if models.len() == 1 {
            if let Some(preset) = self.presets.get(models[0].as_str()) {
                return clone_strings(preset.as_slice());
            }
        }
        clone_strings(models)
    }
}

/// Workspace entry: path, verify command, and retry/timeout settings.
#[derive(Debug, Clone)]
pub struct WorkspaceConfig {
    pub path: String,
    pub verify_command: String,
    pub verify_timeout_seconds: u64,
    pub max_retries: u32,
}

/// Default verification timeout in seconds.
pub fn default_verify_timeout() -> (r: u64)
    ensures
        r == 45,
{
    45
}

/// Default number of verification retries.
pub fn default_max_retries() -> (r: u32)
    ensures
        r == 3,
{
    3
}

/// Top-level configuration (`~/.tinyfusion/config.json`).
#[derive(Debug, Clone)]
pub struct Config {
    pub port: u16,
    /// Legacy worker models.
    pub workers: Vec<ModelConfig>,
    /// Legacy judge model.
    pub judge: ModelConfig,
    /// Legacy executor model.
    pub executor: ModelConfig,
    pub workspaces: StrMap<WorkspaceConfig>,
    pub error_keywords: Vec<String>,
    /// Fusion deliberation pipeline configuration.
    pub fusion: FusionConfig,
}

/// A model at the local Ollama default endpoint.
pub open spec fn is_local_llama(m: ModelConfig, name: Seq<char>) -> bool {
    &&& m.name@ == name
    &&& m.endpoint@ == "http://localhost:11434"@
    &&& m.model_id@ == "llama3"@
    &&& m.api_key is None
}

/// The legacy model used when the configuration names none.
pub fn default_legacy_model() -> (r: ModelConfig)
    ensures
        is_local_llama(r, "default"@),
{
    local_llama("default")
}

fn local_llama(name: &str) -> (r: ModelConfig)
    ensures
        is_local_llama(r, name@),
{
    ModelConfig {
        name: owned(name),
        endpoint: owned("http://localhost:11434"),
        model_id: owned("llama3"),
        api_key: None,
    }
}

/// The built-in error keywords.
pub open spec fn default_keywords() -> Seq<Seq<char>> {
    seq![
        "stack trace"@,
        "compile error"@,
        "test failed"@,
        "stacktrace"@,
        "compilation error"@,
        "tests failed"@,
        "build failed"@,
        "assertion error"@,
        "panic"@,
    ]
}

/// The built-in error keywords, in order.
pub fn default_error_keywords() -> (r: Vec<String>)
    ensures
        strs(r@) == default_keywords(),
{
    let mut v: Vec<String> = Vec::new();
    v.push(owned("stack trace"));
    v.push(owned("compile error"));
    v.push(owned("test failed"));
    v.push(owned("stacktrace"));
    v.push(owned("compilation error"));
    v.push(owned("tests failed"));
    v.push(owned("build failed"));
    v.push(owned("assertion error"));
    v.push(owned("panic"));
    assert(strs(v@) =~= default_keywords());
    v
}

/// Number of registry entries that carry no tier.
pub open spec fn count_without_tier(s: Seq<(String, ModelEntry)>) -> nat
    decreases s.len(),
{
    if s.len() == 0 {
        0
    } else {
        count_without_tier(s.drop_last()) + if s.last().1.tier is None { 1nat } else { 0nat }
    }
}

impl Config {
    /// The configuration written when none exists yet: port 9999, one local
    /// worker, local judge and executor, no workspaces, the built-in error
    /// keywords and an empty Fusion section.
    pub fn default_config() -> (r: Self)
        ensures
            r.port == 9999,
            r.workers@.len() == 1,
            is_local_llama(r.workers@[0], "ollama-default"@),
            is_local_llama(r.judge, "judge"@),
            is_local_llama(r.executor, "executor"@),
            r.workspaces@.len() == 0,
            strs(r.error_keywords@) == default_keywords(),
            r.fusion.timeout_seconds == 30,
            r.fusion.models@.len() == 0,
            r.fusion.presets@.len() == 0,
            r.fusion.default_judge_model@ == "default"@,
            r.fusion.routing is None && r.fusion.budget is None && r.fusion.classifier is None,
    {
        let mut workers: Vec<ModelConfig> = Vec::new();
        workers.push(local_llama("ollama-default"));
        Config {
            port: 9999,
            workers,
            judge: local_llama("judge"),
            executor: local_llama("executor"),
            workspaces: StrMap::new(),
            error_keywords: default_error_keywords(),
            fusion: FusionConfig::default(),
        }
    }

    /// Total configured legacy models: the workers, the judge and the executor.
    pub fn model_count(&self) -> (r: usize)
        requires
            self.workers@.len() + 2 <= usize::MAX,
        ensures
            r == self.workers@.len() + 2,
    {
        self.workers.len() + 1 + 1
    }

    /// Optional v2 sections that are absent (`fusion.routing`, `fusion.budget`),
    /// in that order.
    pub fn missing_v2_sections(&self) -> (r: Vec<String>)
        ensures
            strs(r@) == (if self.fusion.routing is None { seq!["fusion.routing"@] } else { Seq::empty() })
                + (if self.fusion.budget is None { seq!["fusion.budget"@] } else { Seq::empty() }),
    {
        let mut v: Vec<String> = Vec::new();
        if self.fusion.routing.is_none() {
            v.push(owned("fusion.routing"));
        }
        if self.fusion.budget.is_none() {
            v.push(owned("fusion.budget"));
        }
        assert(strs(v@) =~= (if self.fusion.routing is None { seq!["fusion.routing"@] } else { Seq::empty() })
            + (if self.fusion.budget is None { seq!["fusion.budget"@] } else { Seq::empty() }));
        v
    }

    /// Number of registry models without a `tier`.
    pub fn models_without_tier(&self) -> (r: usize)
        ensures
            r == count_without_tier(self.fusion.models@),
    {
        let es = self.fusion.models.entries();
        let mut n: usize = 0;
        let mut i: usize = 0;
        while i < es.len()
            invariant
                i <= es@.len(),
                n <= i,
                n == count_without_tier(es@.take(i as int)),
            decreases es@.len() - i,
        {
            assert(es@.take(i + 1).drop_last() =~= es@.take(i as int));
            if es[i].1.tier.is_none() {
                n = n + 1;
            }
            i = i + 1;
        }
        assert(es@.take(es@.len() as int) =~= es@);
        n
    }
}

} // verus!
