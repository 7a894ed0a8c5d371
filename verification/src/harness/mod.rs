//! The Fusion deliberation pipeline: the context carried through its
//! stages, the stages' own logic, and the pipeline's errors.

pub mod judge_synthesizer;
pub mod metrics_logger;
pub mod panel_dispatcher;
pub mod query_refiner;

use vstd::prelude::*;
use crate::strmap::{StrMap, has_key, lemma_lookup, lookup};
use crate::text::{chars_of, owned, push_str, string_from_chars};
use crate::types::{Message, MessageView, PanelResponse, StructuredAnalysis};

verus! {

broadcast use vstd::string::group_string_axioms;

/// Views of a list of messages.
pub open spec fn msg_views(v: Seq<Message>) -> Seq<MessageView> {
    v.map_values(|m: Message| m@)
}

/// A copy of a list of messages.
pub fn clone_messages(v: &[Message]) -> (r: Vec<Message>)
    ensures
        msg_views(r@) == msg_views(v@),
{
    let mut out: Vec<Message> = Vec::new();
    let mut i: usize = 0;
    while i < v.len()
        invariant
            i <= v@.len(),
            msg_views(out@) == msg_views(v@.take(i as int)),
        decreases v@.len() - i,
    {
        let ghost before = out@;
        let m = v[i].clone();
        out.push(m);
        assert(v@.take(i + 1) =~= v@.take(i as int).push(v@[i as int]));
        assert(msg_views(out@) =~= msg_views(before).push(m@));
        assert(msg_views(v@.take(i + 1)) =~= msg_views(v@.take(i as int)).push(v@[i as int]@));
        i = i + 1;
    }
    assert(v@.take(v@.len() as int) =~= v@);
    out
}

/// Sum of the recorded latencies.
pub open spec fn trace_total(s: Seq<(String, u64)>) -> nat
    decreases s.len(),
{
    if s.len() == 0 {
        0
    } else {
        trace_total(s.drop_last()) + s.last().1 as nat
    }
}

proof fn lemma_trace_total_update(s: Seq<(String, u64)>, i: int, x: (String, u64))
    requires
        0 <= i < s.len(),
    ensures
        trace_total(s.update(i, x)) + s[i].1 == trace_total(s) + x.1,
    decreases s.len(),
{
    let t = s.update(i, x);
    if i == s.len() - 1 {
        assert(t.drop_last() =~= s.drop_last());
    } else {
        assert(t.drop_last() =~= s.drop_last().update(i, x));
        lemma_trace_total_update(s.drop_last(), i, x);
    }
}

proof fn lemma_trace_total_insert(s: Seq<(String, u64)>, i: int, x: (String, u64))
    requires
        0 <= i <= s.len(),
    ensures
        trace_total(s.insert(i, x)) == trace_total(s) + x.1,
    decreases s.len(),
{
    let t = s.insert(i, x);
    if i == s.len() {
        assert(t.drop_last() =~= s);
    } else {
        assert(t.drop_last() =~= s.drop_last().insert(i, x));
        assert(t.last() == s.last());
        lemma_trace_total_insert(s.drop_last(), i, x);
    }
}

/// A latency, or 0 when none was recorded.
pub open spec fn latency_or_zero(o: Option<u64>) -> nat {
    match o {
        Some(x) => x as nat,
        None => 0,
    }
}

/// Runtime context carried through the entire Fusion pipeline for a single request.
#[derive(Debug)]
pub struct PipelineContext {
    /// Unique request identifier for tracing.
    pub request_id: String,
    /// Original client messages.
    pub original_messages: Vec<Message>,
    /// Refined prompt produced by the query refiner.
    pub refined_messages: Vec<Message>,
    /// Panel models to invoke (resolved from args or presets).
    pub panel_models: Vec<String>,
    /// Judge model name.
    pub judge_model: String,
    /// Panel model responses (populated by the panel dispatcher).
    pub panel_responses: Vec<PanelResponse>,
    /// Structured analysis from the judge (populated by the judge synthesizer).
    pub structured_analysis: Option<StructuredAnalysis>,
    /// Whether the client requested streaming.
    pub stream: bool,
    /// Per-stage latency tracking (stage name → milliseconds).
    pub trace: StrMap<u64>,
    /// Self-healing retry counter.
    pub retry_count: u32,
}

impl PipelineContext {
    /// A context for a request, before any stage ran: the refined messages
    /// start as the original ones.
    pub fn new(
        request_id: String,
        messages: Vec<Message>,
        panel_models: Vec<String>,
        judge_model: String,
        stream: bool,
    ) -> (r: Self)
        ensures
            r.request_id == request_id,
            msg_views(r.original_messages@) == msg_views(messages@),
            msg_views(r.refined_messages@) == msg_views(messages@),
            r.panel_models == panel_models,
            r.judge_model == judge_model,
            r.panel_responses@.len() == 0,
            r.structured_analysis is None,
            r.stream == stream,
            r.trace@.len() == 0,
            r.retry_count == 0,
    {
        let original = clone_messages(messages.as_slice());
        Self {
            request_id,
            original_messages: original,
            refined_messages: messages,
            panel_models,
            judge_model,
            panel_responses: Vec::new(),
            structured_analysis: None,
            stream,
            trace: StrMap::new(),
            retry_count: 0,
        }
    }

    /// Record a stage's latency in the trace map (a later record of the
    /// same stage replaces the earlier one).
    pub fn record_latency(&mut self, stage: &str, ms: u64)
        ensures
            lookup(final(self).trace@, stage@) == Some(ms),
            forall|q: Seq<char>| q != stage@ ==> #[trigger] lookup(final(self).trace@, q) == lookup(
                old(self).trace@,
                q,
            ),
            final(self).request_id == old(self).request_id,
            final(self).original_messages == old(self).original_messages,
            final(self).refined_messages == old(self).refined_messages,
            final(self).panel_models == old(self).panel_models,
            final(self).judge_model == old(self).judge_model,
            final(self).panel_responses == old(self).panel_responses,
            final(self).structured_analysis == old(self).structured_analysis,
            final(self).stream == old(self).stream,
            final(self).retry_count == old(self).retry_count,
            trace_total(final(self).trace@) + latency_or_zero(lookup(old(self).trace@, stage@))
                == trace_total(old(self).trace@) + ms,
    {
        let key = owned(stage);
        let ghost e = (key, ms);
        self.trace.insert(key, ms);
        proof {
            let s0 = old(self).trace@;
            lemma_lookup(s0, stage@);
            if has_key(s0, stage@) {
                let i = choose|i: int|
                    0 <= i < s0.len() && s0[i].0@ == stage@ && #[trigger] s0.update(i, e) == self.trace@;
                lemma_trace_total_update(s0, i, e);
            } else {
                let i = choose|i: int| 0 <= i <= s0.len() && #[trigger] s0.insert(i, e) == self.trace@;
                lemma_trace_total_insert(s0, i, e);
            }
        }
    }

    /// Total elapsed time across all recorded stages.
    pub fn total_latency_ms(&self) -> (r: u64)
        requires
            trace_total(self.trace@) <= u64::MAX,
        ensures
            r == trace_total(self.trace@),
    {
        let entries = self.trace.entries();
        let mut sum: u64 = 0;
        let mut i: usize = 0;
        while i < entries.len()
            invariant
                i <= entries@.len(),
                entries@ == self.trace@,
                trace_total(entries@) <= u64::MAX,
                sum == trace_total(entries@.take(i as int)),
            decreases entries@.len() - i,
        {
            proof {
                assert(entries@.take(i + 1).drop_last() =~= entries@.take(i as int));
                lemma_trace_total_prefix(entries@, i + 1);
            }
            sum = sum + entries[i].1;
            i = i + 1;
        }
        assert(entries@.take(i as int) =~= entries@);
        sum
    }
}

/// A prefix of the trace sums to no more than the whole.
proof fn lemma_trace_total_prefix(s: Seq<(String, u64)>, k: int)
    requires
        0 <= k <= s.len(),
    ensures
        trace_total(s.take(k)) <= trace_total(s),
    decreases s.len(),
{
    if k < s.len() {
        assert(s.drop_last().take(k) =~= s.take(k));
        lemma_trace_total_prefix(s.drop_last(), k);
    } else {
        assert(s.take(k) =~= s);
    }
}

/// Error type for harness tool execution failures.
#[derive(Debug)]
pub enum HarnessError {
    ExecutionFailed(String),
    Timeout,
    SchemaValidationFailed(String),
    AllPanelsFailed,
}

/// The text of an error.
pub open spec fn error_text(e: HarnessError) -> Seq<char> {
    match e {
        HarnessError::ExecutionFailed(m) => "Harness execution failed: "@ + m@,
        HarnessError::Timeout => "Harness tool timed out"@,
        HarnessError::SchemaValidationFailed(m) => "Schema validation failed: "@ + m@,
        HarnessError::AllPanelsFailed => "All panel models failed"@,
    }
}

impl HarnessError {
    /// The error as text.
    pub fn to_string(&self) -> (r: String)
        ensures
            r@ == error_text(*self),
    {
        match self {
            HarnessError::ExecutionFailed(m) => {
                let mut v = chars_of("Harness execution failed: ");
                push_str(&mut v, m.as_str());
                string_from_chars(v.as_slice())
            },
            HarnessError::Timeout => owned("Harness tool timed out"),
            HarnessError::SchemaValidationFailed(m) => {
                let mut v = chars_of("Schema validation failed: ");
                push_str(&mut v, m.as_str());
                string_from_chars(v.as_slice())
            },
            HarnessError::AllPanelsFailed => owned("All panel models failed"),
        }
    }
}

} // verus!
