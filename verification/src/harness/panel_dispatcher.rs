//! The panel dispatcher: fans a request out to the panel models (the calls
//! themselves are made by the caller), with graceful degradation: at least
//! one panel model must succeed.

use vstd::prelude::*;
use super::{HarnessError, PipelineContext};
use crate::config::FusionConfig;
use crate::json::{Json, field, str_of, first_of, opt_field};
use crate::numfmt::{decimal, u64_decimal};
use crate::proxy::{bearer_header, build_chat_url_with_path, chat_url_with_path};
use crate::strmap::lookup;
use crate::text::{chars_of, owned, push_all, push_str, string_from_chars};
use crate::types::{PanelResponse, opt_str, is_subrequest_marker, subrequest_marker};

verus! {

broadcast use vstd::string::group_string_axioms;

/// The panel dispatcher stage.
pub struct PanelDispatcher;

/// How to reach one panel model: the URL, the upstream model id, the
/// `Authorization` header value, if any, and the sub-request marker header.
#[derive(Debug)]
pub struct PanelCall {
    pub url: String,
    pub model_id: String,
    pub authorization: Option<String>,
    pub subrequest: (String, String),
}

/// The error text for a panel model missing from the registry.
pub open spec fn unknown_panel_text(model: Seq<char>) -> Seq<char> {
    "Model '"@ + model + "' not found in fusion.models registry"@
}

/// The call for a registered panel model: its chat URL (honouring a
/// custom chat path), its model id, bearer authorization from its key, and
/// the sub-request marker so the call is never deliberated again.
pub open spec fn is_panel_call(c: PanelCall, fusion: FusionConfig, model: Seq<char>) -> bool {
    &&& is_subrequest_marker(c.subrequest)
    &&& lookup(fusion.models@, model) matches Some(e) && c.url@ == chat_url_with_path(
        e.endpoint@,
        opt_str(e.chat_path),
    ) && c.model_id == e.model_id && match e.api_key {
        Some(k) => if k@.len() > 0 {
            c.authorization matches Some(h) && h@ == "Bearer "@ + k@
        } else {
            c.authorization is None
        },
        None => c.authorization is None,
    }
}

/// The call for a panel model, or the error text when it is not registered.
pub fn panel_call(fusion: &FusionConfig, model_name: &str) -> (r: Result<PanelCall, String>)
    ensures
        match r {
            Ok(c) => is_panel_call(c, *fusion, model_name@),
            Err(e) => lookup(fusion.models@, model_name@) is None && e@ == unknown_panel_text(model_name@),
        },
{
    match fusion.get_model(model_name) {
        Some(entry) => {
            let path: Option<&str> = match &entry.chat_path {
                Some(p) => Some(p.as_str()),
                None => None,
            };
            let key: Option<&str> = match &entry.api_key {
                Some(k) => Some(k.as_str()),
                None => None,
            };
            Ok(PanelCall {
                url: build_chat_url_with_path(entry.endpoint.as_str(), path),
                model_id: entry.model_id.clone(),
                authorization: bearer_header(key),
                subrequest: subrequest_marker(),
            })
        },
        None => {
            let mut v = chars_of("Model '");
            push_str(&mut v, model_name);
            push_str(&mut v, "' not found in fusion.models registry");
            Err(string_from_chars(v.as_slice()))
        },
    }
}

/// The assistant content of a chat completion: `choices[0].message.content`.
pub open spec fn completion_content(j: Json) -> Option<Seq<char>> {
    str_of(opt_field(opt_field(first_of(field(j, "choices"@)), "message"@), "content"@))
}

/// Extract the assistant's content from a standard OpenAI chat completion response.
pub fn extract_content_from_response(json: &Json) -> (r: Option<String>)
    ensures
        match r {
            Some(s) => completion_content(*json) == Some(s@),
            None => completion_content(*json) is None,
        },
{
    let c = crate::json::as_str(
        crate::json::get_opt(
            crate::json::get_opt(crate::json::first(crate::json::get(json, "choices")), "message"),
            "content",
        ),
    );
    match c {
        Some(s) => Some(s.clone()),
        None => None,
    }
}

/// What a panel model's successful reply yields: its content, or the error
/// text `Panel <model> returned no content`.
pub fn panel_content(model_name: &str, json: &Json) -> (r: Result<String, String>)
    ensures
        match r {
            Ok(s) => completion_content(*json) == Some(s@),
            Err(e) => completion_content(*json) is None && e@ == "Panel "@ + model_name@
                + " returned no content"@,
        },
{
    match extract_content_from_response(json) {
        Some(s) => Ok(s),
        None => {
            let mut v = chars_of("Panel ");
            push_str(&mut v, model_name);
            push_str(&mut v, " returned no content");
            Err(string_from_chars(v.as_slice()))
        },
    }
}

/// The error text of a panel call that timed out.
pub fn panel_timeout_error(model_name: &str, timeout_secs: u64) -> (r: String)
    ensures
        r@ == "Panel "@ + model_name@ + " timed out after "@ + decimal(timeout_secs as nat) + "s"@,
{
    let mut v = chars_of("Panel ");
    push_str(&mut v, model_name);
    push_str(&mut v, " timed out after ");
    let d = u64_decimal(timeout_secs);
    push_all(&mut v, d.as_slice());
    push_str(&mut v, "s");
    string_from_chars(v.as_slice())
}

/// The error text of a panel call that could not be made.
pub fn panel_request_error(model_name: &str, error: &str) -> (r: String)
    ensures
        r@ == "Panel "@ + model_name@ + " request failed: "@ + error@,
{
    let mut v = chars_of("Panel ");
    push_str(&mut v, model_name);
    push_str(&mut v, " request failed: ");
    push_str(&mut v, error);
    string_from_chars(v.as_slice())
}

/// The error text of a panel call answered with an unsuccessful status.
pub fn panel_status_error(model_name: &str, status: &str, body: &str) -> (r: String)
    ensures
        r@ == "Panel "@ + model_name@ + " returned "@ + status@ + ": "@ + body@,
{
    let mut v = chars_of("Panel ");
    push_str(&mut v, model_name);
    push_str(&mut v, " returned ");
    push_str(&mut v, status);
    push_str(&mut v, ": ");
    push_str(&mut v, body);
    string_from_chars(v.as_slice())
}

/// Number of responses that succeeded.
pub open spec fn success_count(rs: Seq<PanelResponse>) -> nat
    decreases rs.len(),
{
    if rs.len() == 0 {
        0
    } else {
        success_count(rs.drop_last()) + if rs.last().content is Ok { 1nat } else { 0nat }
    }
}

/// What became of the task calling one panel model.
#[derive(Debug)]
pub enum PanelOutcome {
    /// The call finished: its content or error text, and its latency in
    /// milliseconds.
    Finished(Result<String, String>, u64),
    /// The task running the call failed to complete; the text says how.
    Lost(String),
}

/// Number of outcomes that are finished calls that succeeded.
pub open spec fn ok_count(os: Seq<PanelOutcome>) -> nat
    decreases os.len(),
{
    if os.len() == 0 {
        0
    } else {
        ok_count(os.drop_last()) + if os.last() matches PanelOutcome::Finished(Ok(_), _) {
            1nat
        } else {
            0nat
        }
    }
}

/// A stored panel response: for a finished call, the panel model's name
/// with the call's outcome and latency; for a lost task, the name
/// `unknown`, the error `Task join error: <text>` and latency 0. No token
/// count either way.
pub open spec fn is_panel_entry(r: PanelResponse, model: Seq<char>, o: PanelOutcome) -> bool {
    &&& r.token_count is None
    &&& match o {
        PanelOutcome::Finished(content, latency) => r.model_name@ == model && r.content == content
            && r.latency_ms == latency,
        PanelOutcome::Lost(e) => r.model_name@ == "unknown"@ && r.latency_ms == 0 && (r.content matches Err(
            t,
        ) && t@ == "Task join error: "@ + e@),
    }
}

impl PanelDispatcher {
    /// The stage's name.
    pub fn name(&self) -> (r: &'static str)
        ensures
            r@ == "PanelDispatcher"@,
    {
        "PanelDispatcher"
    }

    /// Takes in the outcome of the task calling each panel model, in the
    /// order of `ctx.panel_models`: fails, changing nothing, when no call
    /// succeeded; otherwise stores one response per outcome, in order.
    pub fn collect(&self, ctx: &mut PipelineContext, outcomes: Vec<PanelOutcome>) -> (r: Result<(), HarnessError>)
        requires
            outcomes@.len() == old(ctx).panel_models@.len(),
        ensures
            ok_count(outcomes@) == 0 ==> (r matches Err(HarnessError::AllPanelsFailed)
                && *final(ctx) == *old(ctx)),
            ok_count(outcomes@) > 0 ==> r is Ok
                && final(ctx).panel_responses@.len() == outcomes@.len()
                && (forall|i: int| 0 <= i < outcomes@.len() ==> #[trigger] is_panel_entry(
                    final(ctx).panel_responses@[i],
                    old(ctx).panel_models@[i]@,
                    outcomes@[i],
                ))
                && *final(ctx) == (PipelineContext {
                    panel_responses: final(ctx).panel_responses,
                    ..*old(ctx)
                }),
    {
        let ghost all = outcomes@;
        let mut count: usize = 0;
        let mut i: usize = 0;
        while i < outcomes.len()
            invariant
                i <= outcomes@.len(),
                count == ok_count(outcomes@.take(i as int)),
                count <= i,
            decreases outcomes@.len() - i,
        {
            assert(outcomes@.take(i + 1).drop_last() =~= outcomes@.take(i as int));
            if let PanelOutcome::Finished(Ok(_), _) = &outcomes[i] {
                count = count + 1;
            }
            i = i + 1;
        }
        assert(outcomes@.take(i as int) =~= outcomes@);
        if count == 0 {
            return Err(HarnessError::AllPanelsFailed);
        }
        assert(all.len() == outcomes.len());
        let mut rest = outcomes;
        let mut responses: Vec<PanelResponse> = Vec::new();
        let mut k: usize = 0;
        while rest.len() > 0
            invariant
                k <= all.len(),
                all.len() <= usize::MAX,
                all.len() == ctx.panel_models@.len(),
                rest@ == all.skip(k as int),
                responses@.len() == k,
                forall|j: int| 0 <= j < k ==> #[trigger] is_panel_entry(
                    responses@[j],
                    ctx.panel_models@[j]@,
                    all[j],
                ),
            decreases rest@.len(),
        {
            let outcome = rest.remove(0);
            assert(rest@ =~= all.skip(k + 1));
            let response = match outcome {
                PanelOutcome::Finished(content, latency_ms) => PanelResponse {
                    model_name: ctx.panel_models[k].clone(),
                    content,
                    latency_ms,
                    token_count: None,
                },
                PanelOutcome::Lost(e) => {
                    let mut v = chars_of("Task join error: ");
                    push_str(&mut v, e.as_str());
                    PanelResponse {
                        model_name: owned("unknown"),
                        content: Err(string_from_chars(v.as_slice())),
                        latency_ms: 0,
                        token_count: None,
                    }
                },
            };
            responses.push(response);
            k = k + 1;
        }
        ctx.panel_responses = responses;
        Ok(())
    }
}

} // verus!
