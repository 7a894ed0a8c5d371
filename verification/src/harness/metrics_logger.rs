//! The metrics logger: the per-request metrics record of a pipeline run
//! (appending it to the metrics file is the caller's part).

use vstd::prelude::*;
use super::{PipelineContext, trace_total};
use super::panel_dispatcher::success_count;
use crate::strmap::lookup;
use crate::text::owned;
use crate::types::{PanelResponse, RequestMetrics, clone_strings};

verus! {

broadcast use vstd::string::group_string_axioms;

/// The metrics logger stage.
pub struct MetricsLogger;

/// Number of responses that failed.
pub open spec fn failure_count(rs: Seq<PanelResponse>) -> nat
    decreases rs.len(),
{
    if rs.len() == 0 {
        0
    } else {
        failure_count(rs.drop_last()) + if rs.last().content is Err { 1nat } else { 0nat }
    }
}

/// The latency recorded for a stage, 0 when none was.
pub open spec fn stage_latency(trace: Seq<(String, u64)>, stage: Seq<char>) -> u64 {
    match lookup(trace, stage) {
        Some(ms) => ms,
        None => 0,
    }
}

/// The metrics record of a run, stamped `timestamp`.
pub open spec fn is_metrics_of(m: RequestMetrics, ctx: PipelineContext, timestamp: u64) -> bool {
    &&& m.request_id == ctx.request_id
    &&& m.timestamp == timestamp
    &&& m.request_type@ == "fusion"@
    &&& m.total_latency_ms == trace_total(ctx.trace@)
    &&& m.outer_model@ == Seq::<char>::empty()
    &&& m.panel_models@ == ctx.panel_models@
    &&& m.judge_model == ctx.judge_model
    &&& m.panel_latencies_ms@ == ctx.panel_responses@.map_values(|r: PanelResponse| r.latency_ms)
    &&& m.judge_latency_ms == stage_latency(ctx.trace@, "JudgeSynthesizer"@)
    &&& m.refiner_latency_ms == stage_latency(ctx.trace@, "QueryRefiner"@)
    &&& m.consensus_count == match ctx.structured_analysis {
        Some(a) => a.consensus@.len(),
        None => 0,
    }
    &&& m.contradiction_count == match ctx.structured_analysis {
        Some(a) => a.contradictions@.len(),
        None => 0,
    }
    &&& m.blind_spot_count == match ctx.structured_analysis {
        Some(a) => a.blind_spots@.len(),
        None => 0,
    }
    &&& m.panel_success_count == success_count(ctx.panel_responses@)
    &&& m.panel_failure_count == failure_count(ctx.panel_responses@)
}

impl MetricsLogger {
    /// The stage's name.
    pub fn name(&self) -> (r: &'static str)
        ensures
            r@ == "MetricsLogger"@,
    {
        "MetricsLogger"
    }

    /// The metrics record of the run in `ctx`, stamped `timestamp`.
    pub fn metrics(&self, ctx: &PipelineContext, timestamp: u64) -> (r: RequestMetrics)
        requires
            trace_total(ctx.trace@) <= u64::MAX,
        ensures
            is_metrics_of(r, *ctx, timestamp),
    {
        let mut latencies: Vec<u64> = Vec::new();
        let mut ok: usize = 0;
        let mut failed: usize = 0;
        let mut i: usize = 0;
        let ghost rs = ctx.panel_responses@;
        while i < ctx.panel_responses.len()
            invariant
                i <= rs.len(),
                rs == ctx.panel_responses@,
                latencies@ == rs.take(i as int).map_values(|r: PanelResponse| r.latency_ms),
                ok == success_count(rs.take(i as int)),
                failed == failure_count(rs.take(i as int)),
                ok + failed == i,
            decreases rs.len() - i,
        {
            let r = &ctx.panel_responses[i];
            proof {
                assert(rs.take(i + 1).drop_last() =~= rs.take(i as int));
                assert(rs.take(i + 1).last() == rs[i as int]);
            }
            latencies.push(r.latency_ms);
            assert(latencies@ =~= rs.take(i + 1).map_values(|r: PanelResponse| r.latency_ms));
            if r.content.is_ok() {
                ok = ok + 1;
            } else {
                failed = failed + 1;
            }
            i = i + 1;
        }
        assert(rs.take(i as int) =~= rs);
        let judge_latency = match ctx.trace.get("JudgeSynthesizer") {
            Some(ms) => *ms,
            None => 0,
        };
        let refiner_latency = match ctx.trace.get("QueryRefiner") {
            Some(ms) => *ms,
            None => 0,
        };
        let (consensus, contradictions, blind_spots) = match &ctx.structured_analysis {
            Some(a) => (a.consensus.len(), a.contradictions.len(), a.blind_spots.len()),
            None => (0, 0, 0),
        };
        proof {
            reveal_strlit("");
        }
        let request_id = ctx.request_id.clone();
        let total = ctx.total_latency_ms();
        let outer = owned("");
        let panel_models = clone_strings(ctx.panel_models.as_slice());
        let judge = ctx.judge_model.clone();
        assert(request_id == ctx.request_id);
        assert(total == trace_total(ctx.trace@));
        assert(outer@ == Seq::<char>::empty());
        assert(panel_models@ == ctx.panel_models@);
        assert(judge_latency == stage_latency(ctx.trace@, "JudgeSynthesizer"@));
        assert(refiner_latency == stage_latency(ctx.trace@, "QueryRefiner"@));
        RequestMetrics {
            request_id,
            timestamp,
            request_type: owned("fusion"),
            total_latency_ms: total,
            outer_model: outer,
            panel_models,
            judge_model: judge,
            panel_latencies_ms: latencies,
            judge_latency_ms: judge_latency,
            refiner_latency_ms: refiner_latency,
            consensus_count: consensus,
            contradiction_count: contradictions,
            blind_spot_count: blind_spots,
            panel_success_count: ok,
            panel_failure_count: failed,
        }
    }
}

} // verus!
