//! The judge synthesizer: sends the successful panel responses to the judge
//! model with a strict JSON-schema system prompt, asking for a structured
//! analysis.

use vstd::prelude::*;
use super::{HarnessError, PipelineContext};
use super::panel_dispatcher::{completion_content, extract_content_from_response};
use crate::config::FusionConfig;
use crate::json::{Json, field, array_of};
use crate::moa::{has_keys, has_text};
use crate::numfmt::{decimal, u64_decimal};
use crate::proxy::{bearer_header, build_chat_url_with_path, chat_url_with_path};
use crate::strmap::lookup;
use crate::text::{chars_of, owned, push_all, push_str, string_from_chars};
use crate::types::{Message, PanelResponse, content_of, opt_str, is_subrequest_marker, subrequest_marker};

verus! {

broadcast use vstd::string::group_string_axioms;

/// The judge synthesizer stage.
pub struct JudgeSynthesizer;

/// The system prompt that fixes the judge's output schema.
pub const JUDGE_SYSTEM_PROMPT: &'static str = "You are a technical judge synthesizing analyses from multiple AI models.

You MUST output a single JSON object with EXACTLY these fields:
{
  \"consensus\": [\"<points all models agreed on>\"],
  \"contradictions\": [{\"topic\": \"<topic>\", \"stances\": [{\"model\": \"<name>\", \"stance\": \"<position>\"}]}],
  \"partial_coverage\": [{\"models\": [\"<model names>\"], \"point\": \"<insight only some covered>\"}],
  \"unique_insights\": [{\"model\": \"<name>\", \"insight\": \"<valuable unique point>\"}],
  \"blind_spots\": [\"<important aspects no model addressed>\"]
}

Rules:
- Output ONLY valid JSON. No markdown, no explanation, no preamble.
- Every field is required. Use empty arrays [] if nothing applies.
- Be concise but precise in your analysis.
- Identify genuine disagreements, not just different phrasing of the same idea.";

/// The user queries of the conversation, one per line.
pub open spec fn user_query_lines(msgs: Seq<Message>) -> Seq<char>
    decreases msgs.len(),
{
    if msgs.len() == 0 {
        Seq::empty()
    } else {
        user_query_lines(msgs.drop_last()) + if msgs.last().role@ == "user"@ {
            content_of(msgs.last()) + "\n"@
        } else {
            Seq::empty()
        }
    }
}

/// The section of the judge prompt for the `i`-th response (counted from 0).
pub open spec fn response_section(i: int, r: PanelResponse) -> Seq<char> {
    "\n### Model "@ + decimal((i + 1) as nat) + " ("@ + r.model_name@ + ")\n"@ + match r.content {
        Ok(c) => c@,
        Err(e) => "[Error: "@ + e@ + "]"@,
    } + "\n"@
}

/// The sections of all responses, in order.
pub open spec fn response_sections(rs: Seq<&PanelResponse>) -> Seq<char>
    decreases rs.len(),
{
    if rs.len() == 0 {
        Seq::empty()
    } else {
        response_sections(rs.drop_last()) + response_section(rs.len() - 1, *rs.last())
    }
}

/// The user prompt of the judge.
pub open spec fn judge_user_prompt(msgs: Seq<Message>, rs: Seq<&PanelResponse>) -> Seq<char> {
    "## Original User Query\n"@ + user_query_lines(msgs) + "\n## Panel Model Responses\n"@
        + response_sections(rs) + "\nAnalyze these responses and output the structured JSON."@
}

/// Build the user prompt for the judge model, including all panel responses.
pub fn build_judge_user_prompt(
    original_messages: &[Message],
    panel_responses: &[&PanelResponse],
) -> (r: String)
    ensures
        r@ == judge_user_prompt(original_messages@, panel_responses@),
{
    let mut p = chars_of("## Original User Query\n");
    let ghost head = p@;
    let mut i: usize = 0;
    while i < original_messages.len()
        invariant
            i <= original_messages@.len(),
            p@ == head + user_query_lines(original_messages@.take(i as int)),
        decreases original_messages@.len() - i,
    {
        let ghost before = p@;
        let msg = &original_messages[i];
        proof {
            let t = original_messages@.take(i + 1);
            assert(t.drop_last() =~= original_messages@.take(i as int));
            assert(t.last() == original_messages@[i as int]);
        }
        if crate::json::same_text(msg.role.as_str(), "user") {
            push_str(&mut p, msg.content_str());
            push_str(&mut p, "\n");
            assert(p@ =~= head + user_query_lines(original_messages@.take(i + 1)));
        } else {
            assert(p@ =~= head + user_query_lines(original_messages@.take(i + 1)));
        }
        i = i + 1;
    }
    assert(original_messages@.take(original_messages@.len() as int) =~= original_messages@);
    push_str(&mut p, "\n## Panel Model Responses\n");
    let ghost mid = p@;
    let mut k: usize = 0;
    while k < panel_responses.len()
        invariant
            k <= panel_responses@.len(),
            p@ == mid + response_sections(panel_responses@.take(k as int)),
        decreases panel_responses@.len() - k,
    {
        let resp: &PanelResponse = panel_responses[k];
        let ghost before = p@;
        push_str(&mut p, "\n### Model ");
        let d = u64_decimal((k + 1) as u64);
        push_all(&mut p, d.as_slice());
        push_str(&mut p, " (");
        push_str(&mut p, resp.model_name.as_str());
        push_str(&mut p, ")\n");
        match &resp.content {
            Ok(content) => push_str(&mut p, content.as_str()),
            Err(err) => {
                push_str(&mut p, "[Error: ");
                push_str(&mut p, err.as_str());
                push_str(&mut p, "]");
            },
        }
        push_str(&mut p, "\n");
        proof {
            let t = panel_responses@.take(k + 1);
            assert(t.drop_last() =~= panel_responses@.take(k as int));
            assert(t.last() == panel_responses@[k as int]);
            assert(p@ =~= before + response_section(k as int, *panel_responses@[k as int]));
        }
        k = k + 1;
    }
    assert(panel_responses@.take(panel_responses@.len() as int) =~= panel_responses@);
    push_str(&mut p, "\nAnalyze these responses and output the structured JSON.");
    assert(p@ =~= judge_user_prompt(original_messages@, panel_responses@));
    string_from_chars(p.as_slice())
}

/// How to reach the judge: the URL, the request body (without the
/// sampling temperature, a float that the caller adds as `0.1`), the
/// `Authorization` header value, if any, and the sub-request marker header.
#[derive(Debug)]
pub struct JudgeCall {
    pub url: String,
    pub body: Json,
    pub authorization: Option<String>,
    pub subrequest: (String, String),
}

/// The responses that succeeded, in order.
pub open spec fn successes(rs: Seq<PanelResponse>) -> Seq<PanelResponse> {
    rs.filter(|r: PanelResponse| r.content is Ok)
}

/// The judge's request body: `{"model": .., "messages": [system, user],
/// "stream": false, "response_format": {"type": "json_object"}}`.
pub open spec fn is_judge_request(j: Json, model: Seq<char>, prompt: Seq<char>) -> bool {
    &&& has_keys(j, seq!["model"@, "messages"@, "stream"@, "response_format"@])
    &&& has_text(j, "model"@, model)
    &&& array_of(field(j, "messages"@)) matches Some(a) && a.len() == 2 && has_keys(
        a[0],
        seq!["role"@, "content"@],
    ) && has_text(a[0], "role"@, "system"@) && has_text(a[0], "content"@, JUDGE_SYSTEM_PROMPT@)
        && has_keys(a[1], seq!["role"@, "content"@]) && has_text(a[1], "role"@, "user"@) && has_text(
        a[1],
        "content"@,
        prompt,
    )
    &&& field(j, "stream"@) == Some(Json::Bool(false))
    &&& field(j, "response_format"@) matches Some(f) && has_keys(f, seq!["type"@]) && has_text(
        f,
        "type"@,
        "json_object"@,
    )
}

/// A `{"role": .., "content": ..}` object.
fn role_message(role: &str, content: &str) -> (r: Json)
    ensures
        has_keys(r, seq!["role"@, "content"@]),
        has_text(r, "role"@, role@),
        has_text(r, "content"@, content@),
{
    let mut m: Vec<(String, Json)> = Vec::new();
    m.push((owned("role"), Json::Str(owned(role))));
    m.push((owned("content"), Json::Str(owned(content))));
    proof {
        reveal_strlit("role");
        reveal_strlit("content");
        assert("role"@.len() == 4 && "content"@.len() == 7);
        reveal_with_fuel(crate::json::member, 2);
        assert(m@.drop_first()[0] == m@[1]);
    }
    Json::Object(m)
}

/// The judge's request body.
fn judge_body(model_id: &str, prompt: &str) -> (r: Json)
    ensures
        is_judge_request(r, model_id@, prompt@),
{
    let mut items: Vec<Json> = Vec::new();
    items.push(role_message("system", JUDGE_SYSTEM_PROMPT));
    items.push(role_message("user", prompt));
    let mut fmt: Vec<(String, Json)> = Vec::new();
    fmt.push((owned("type"), Json::Str(owned("json_object"))));
    let mut entries: Vec<(String, Json)> = Vec::new();
    entries.push((owned("model"), Json::Str(owned(model_id))));
    entries.push((owned("messages"), Json::Array(items)));
    entries.push((owned("stream"), Json::Bool(false)));
    entries.push((owned("response_format"), Json::Object(fmt)));
    proof {
        reveal_strlit("model");
        reveal_strlit("messages");
        reveal_strlit("stream");
        reveal_strlit("response_format");
        reveal_strlit("type");
        assert("model"@.len() == 5 && "messages"@.len() == 8 && "stream"@.len() == 6);
        assert("response_format"@.len() == 15);
        reveal_with_fuel(crate::json::member, 4);
        assert(entries@.drop_first()[0] == entries@[1]);
        assert(entries@.drop_first().drop_first()[0] == entries@[2]);
        assert(entries@.drop_first().drop_first().drop_first()[0] == entries@[3]);
    }
    Json::Object(entries)
}

/// The judge's reply content: `choices[0].message.content`, or an error.
pub fn judge_content(json: &Json) -> (r: Result<String, HarnessError>)
    ensures
        match r {
            Ok(s) => completion_content(*json) == Some(s@),
            Err(e) => completion_content(*json) is None && (e matches HarnessError::ExecutionFailed(m)
                && m@ == "Judge response missing content"@),
        },
{
    match extract_content_from_response(json) {
        Some(s) => Ok(s),
        None => Err(HarnessError::ExecutionFailed(owned("Judge response missing content"))),
    }
}

/// Filtering a sequence extended by one element.
proof fn lemma_filter_push<A>(s: Seq<A>, x: A, p: spec_fn(A) -> bool)
    ensures
        s.push(x).filter(p) == (if p(x) {
            s.filter(p).push(x)
        } else {
            s.filter(p)
        }),
{
    reveal(Seq::filter);
    assert(s.push(x).drop_last() =~= s);
}

/// The call to the registered judge `e` for the context: the judge's chat
/// URL, bearer authorization from its key, the sub-request marker, and the
/// request carrying the prompt built from the successful responses.
pub open spec fn is_judge_call(c: JudgeCall, e: crate::config::ModelEntry, ctx: PipelineContext) -> bool {
    &&& is_subrequest_marker(c.subrequest)
    &&& c.url@ == chat_url_with_path(e.endpoint@, opt_str(e.chat_path))
    &&& match e.api_key {
        Some(k) => if k@.len() > 0 {
            c.authorization matches Some(h) && h@ == "Bearer "@ + k@
        } else {
            c.authorization is None
        },
        None => c.authorization is None,
    }
    &&& exists|refs: Seq<&PanelResponse>|
        refs.map_values(|x: &PanelResponse| *x) == successes(ctx.panel_responses@) && is_judge_request(
            c.body,
            e.model_id@,
            judge_user_prompt(ctx.original_messages@, refs),
        )
}

impl JudgeSynthesizer {
    /// The stage's name.
    pub fn name(&self) -> (r: &'static str)
        ensures
            r@ == "JudgeSynthesizer"@,
    {
        "JudgeSynthesizer"
    }

    /// The call to make to the judge for the context: fails when no panel
    /// response succeeded, or when the judge model is not registered.
    pub fn plan(&self, ctx: &PipelineContext, fusion: &FusionConfig) -> (r: Result<JudgeCall, HarnessError>)
        ensures
            successes(ctx.panel_responses@).len() == 0 ==> (r matches Err(
                HarnessError::ExecutionFailed(m),
            ) && m@ == "No successful panel responses to synthesize"@),
            successes(ctx.panel_responses@).len() > 0 ==> match lookup(fusion.models@, ctx.judge_model@) {
                None => r matches Err(HarnessError::ExecutionFailed(m)) && m@ == "Judge model '"@
                    + ctx.judge_model@ + "' not found in fusion.models registry"@,
                Some(e) => r matches Ok(c) && is_judge_call(c, e, *ctx),
            },
    {
        let ghost p = |r: PanelResponse| r.content is Ok;
        let mut refs: Vec<&PanelResponse> = Vec::new();
        let mut i: usize = 0;
        while i < ctx.panel_responses.len()
            invariant
                i <= ctx.panel_responses@.len(),
                p == (|r: PanelResponse| r.content is Ok),
                refs@.map_values(|x: &PanelResponse| *x) == ctx.panel_responses@.take(i as int).filter(p),
            decreases ctx.panel_responses@.len() - i,
        {
            let r = &ctx.panel_responses[i];
            proof {
                assert(ctx.panel_responses@.take(i + 1) =~= ctx.panel_responses@.take(i as int).push(*r));
                lemma_filter_push(ctx.panel_responses@.take(i as int), *r, p);
            }
            if r.content.is_ok() {
                let ghost before = refs@;
                refs.push(r);
                assert(refs@.map_values(|x: &PanelResponse| *x) =~= before.map_values(
                    |x: &PanelResponse| *x,
                ).push(*r));
            }
            i = i + 1;
        }
        assert(ctx.panel_responses@.take(i as int) =~= ctx.panel_responses@);
        if refs.len() == 0 {
            return Err(
                HarnessError::ExecutionFailed(owned("No successful panel responses to synthesize")),
            );
        }
        let prompt = build_judge_user_prompt(ctx.original_messages.as_slice(), refs.as_slice());
        let entry = match fusion.get_model(ctx.judge_model.as_str()) {
            Some(e) => e,
            None => {
                let mut v = chars_of("Judge model '");
                push_str(&mut v, ctx.judge_model.as_str());
                push_str(&mut v, "' not found in fusion.models registry");
                return Err(HarnessError::ExecutionFailed(string_from_chars(v.as_slice())));
            },
        };
        let path: Option<&str> = match &entry.chat_path {
            Some(s) => Some(s.as_str()),
            None => None,
        };
        let key: Option<&str> = match &entry.api_key {
            Some(k) => Some(k.as_str()),
            None => None,
        };
        Ok(JudgeCall {
            url: build_chat_url_with_path(entry.endpoint.as_str(), path),
            body: judge_body(entry.model_id.as_str(), prompt.as_str()),
            authorization: bearer_header(key),
            subrequest: subrequest_marker(),
        })
    }
}

proof fn lemma_joined_push(cs: Seq<Seq<char>>, x: Seq<char>)
    ensures
        crate::chat::joined(cs.push(x)) == crate::chat::joined(cs) + x,
    decreases cs.len(),
{
    if cs.len() == 0 {
        assert(cs.push(x).drop_first() =~= Seq::<Seq<char>>::empty());
        assert(crate::chat::joined(Seq::<Seq<char>>::empty()) == Seq::<char>::empty());
        assert(x + Seq::<char>::empty() =~= x);
        assert(Seq::<char>::empty() + x =~= x);
    } else {
        assert(cs.push(x).drop_first() =~= cs.drop_first().push(x));
        lemma_joined_push(cs.drop_first(), x);
        assert(cs.push(x)[0] == cs[0]);
        assert(cs[0] + (crate::chat::joined(cs.drop_first()) + x) =~= (cs[0] + crate::chat::joined(
            cs.drop_first(),
        )) + x);
    }
}

/// The judge sees every panel response: after the user queries, the prompt
/// holds one section per response, in order, the `i`-th (counted from 0)
/// being `\n### Model <i+1> (<model name>)\n<content or [Error: ..]>\n`,
/// and then the closing instruction.
pub proof fn law_judge_prompt_has_every_response(msgs: Seq<Message>, rs: Seq<&PanelResponse>)
    ensures
        judge_user_prompt(msgs, rs) == "## Original User Query\n"@ + user_query_lines(msgs)
            + "\n## Panel Model Responses\n"@ + crate::chat::joined(
            Seq::new(
                rs.len(),
                |i: int|
                    "\n### Model "@ + decimal((i + 1) as nat) + " ("@ + rs[i].model_name@ + ")\n"@
                        + match rs[i].content {
                        Ok(c) => c@,
                        Err(e) => "[Error: "@ + e@ + "]"@,
                    } + "\n"@,
            ),
        ) + "\nAnalyze these responses and output the structured JSON."@,
{
    lemma_sections_joined(rs);
}

proof fn lemma_sections_joined(rs: Seq<&PanelResponse>)
    ensures
        response_sections(rs) == crate::chat::joined(
            Seq::new(
                rs.len(),
                |i: int|
                    "\n### Model "@ + decimal((i + 1) as nat) + " ("@ + rs[i].model_name@ + ")\n"@
                        + match rs[i].content {
                        Ok(c) => c@,
                        Err(e) => "[Error: "@ + e@ + "]"@,
                    } + "\n"@,
            ),
        ),
    decreases rs.len(),
{
    let f = |i: int|
        "\n### Model "@ + decimal((i + 1) as nat) + " ("@ + rs[i].model_name@ + ")\n"@ + match rs[i].content {
            Ok(c) => c@,
            Err(e) => "[Error: "@ + e@ + "]"@,
        } + "\n"@;
    if rs.len() == 0 {
        assert(Seq::new(0, f) =~= Seq::<Seq<char>>::empty());
    } else {
        let t = rs.drop_last();
        lemma_sections_joined(t);
        let g = |i: int|
            "\n### Model "@ + decimal((i + 1) as nat) + " ("@ + t[i].model_name@ + ")\n"@ + match t[i].content {
                Ok(c) => c@,
                Err(e) => "[Error: "@ + e@ + "]"@,
            } + "\n"@;
        assert(Seq::new(rs.len(), f) =~= Seq::new(t.len(), g).push(response_section(rs.len() - 1, *rs.last())));
        lemma_joined_push(Seq::new(t.len(), g), response_section(rs.len() - 1, *rs.last()));
    }
}

} // verus!
