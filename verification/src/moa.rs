//! Mixture-of-agents: the request each worker model receives, the Judge
//! prompt built from the workers' answers, and the reading of the Judge's
//! XML-tagged reply.

use vstd::prelude::*;
use crate::json::{Json, field, str_of, array_of};
use crate::numfmt::{decimal, u64_decimal};
use crate::sniffer::Message;
use crate::text::{
    chars_of, find, first_index, push_all, push_str, slice_chars, string_from_chars, trim,
    trim_chars, owned,
};

verus! {

broadcast use vstd::string::group_string_axioms;

/// Result from a single worker model call.
#[derive(Debug)]
pub struct WorkerResponse {
    pub endpoint: String,
    /// `Ok(response)` or `Err(error)`.
    pub content: Result<String, String>,
}

/// Worker configuration.
#[derive(Debug, Clone)]
pub struct WorkerConfig {
    pub endpoint: String,
    pub model_id: String,
    pub api_key: Option<String>,
}

/// Member `key` of `j` is the string `s`.
pub open spec fn has_text(j: Json, key: Seq<char>, s: Seq<char>) -> bool {
    str_of(field(j, key)) == Some(s)
}

/// An object with exactly the members `keys`, in that order.
pub open spec fn has_keys(j: Json, keys: Seq<Seq<char>>) -> bool {
    match j {
        Json::Object(entries) => entries@.len() == keys.len() && forall|i: int|
            0 <= i < keys.len() ==> #[trigger] entries@[i].0@ == keys[i],
        _ => false,
    }
}

/// The chat message object `{"role": .., "content": ..}` for `m`.
pub open spec fn is_message_object(j: Json, m: Message) -> bool {
    &&& has_keys(j, seq!["role"@, "content"@])
    &&& has_text(j, "role"@, m.role@)
    &&& has_text(j, "content"@, m.content@)
}

/// The request body a worker receives: `{"model": .., "messages": [..]}`.
pub open spec fn is_worker_request(j: Json, model: Seq<char>, msgs: Seq<Message>) -> bool {
    &&& has_keys(j, seq!["model"@, "messages"@])
    &&& has_text(j, "model"@, model)
    &&& array_of(field(j, "messages"@)) matches Some(a) && a.len() == msgs.len() && forall|i: int|
        0 <= i < msgs.len() ==> is_message_object(#[trigger] a[i], msgs[i])
}

/// `{"role": .., "content": ..}` for one message.
fn message_object(m: &Message) -> (r: Json)
    ensures
        is_message_object(r, *m),
{
    let mut entries: Vec<(String, Json)> = Vec::new();
    entries.push((owned("role"), Json::Str(m.role.clone())));
    entries.push((owned("content"), Json::Str(m.content.clone())));
    proof {
        reveal_strlit("role");
        reveal_strlit("content");
        assert("role"@.len() == 4 && "content"@.len() == 7);
        assert(entries@.drop_first()[0] == entries@[1]);
        reveal_with_fuel(crate::json::member, 2);
    }
    Json::Object(entries)
}

/// The body of the chat request sent to a worker model.
pub fn worker_request_body(config: &WorkerConfig, messages: &[Message]) -> (r: Json)
    ensures
        is_worker_request(r, config.model_id@, messages@),
{
    let mut items: Vec<Json> = Vec::new();
    let mut i: usize = 0;
    while i < messages.len()
        invariant
            i <= messages@.len(),
            items@.len() == i,
            forall|k: int| 0 <= k < i ==> is_message_object(#[trigger] items@[k], messages@[k]),
        decreases messages@.len() - i,
    {
        items.push(message_object(&messages[i]));
        i = i + 1;
    }
    let mut entries: Vec<(String, Json)> = Vec::new();
    entries.push((owned("model"), Json::Str(config.model_id.clone())));
    entries.push((owned("messages"), Json::Array(items)));
    proof {
        reveal_strlit("model");
        reveal_strlit("messages");
        assert("model"@.len() == 5 && "messages"@.len() == 8);
        assert(entries@.drop_first()[0] == entries@[1]);
        reveal_with_fuel(crate::json::member, 2);
    }
    Json::Object(entries)
}

/// The error text of a worker call that timed out.
pub fn worker_timeout_error(timeout_secs: u64) -> (r: String)
    ensures
        r@ == "Worker timed out after "@ + decimal(timeout_secs as nat) + "s"@,
{
    let mut v = chars_of("Worker timed out after ");
    let n = u64_decimal(timeout_secs);
    push_all(&mut v, n.as_slice());
    push_str(&mut v, "s");
    string_from_chars(v.as_slice())
}

/// Instructions that open the Judge prompt.
pub open spec fn judge_preamble() -> Seq<char> {
    "You are a technical judge reviewing analyses from multiple AI models.\n"@
        + "Review their responses and produce a structured diagnostic in XML format.\n"@
        + "Use the following tags:\n"@ + "- <consensus>: Points all workers agreed on\n"@
        + "- <contradictions>: Where workers disagree\n"@
        + "- <coverage_gaps>: Important aspects no worker covered\n"@
        + "- <unique_insights>: Valuable points from individual workers\n"@
        + "- <final_plan>: The recommended action plan (required)\n\n"@
}

/// The section of the Judge prompt for the `i`-th worker (counted from 0).
pub open spec fn worker_section(i: int, r: WorkerResponse) -> Seq<char> {
    "\n--- Worker "@ + decimal((i + 1) as nat) + " ("@ + r.endpoint@ + ") ---\n"@ + match r.content {
        Ok(c) => c@,
        Err(e) => "[Error: "@ + e@ + "]"@,
    }
}

/// The sections of all workers, in order.
pub open spec fn worker_sections(rs: Seq<WorkerResponse>) -> Seq<char>
    decreases rs.len(),
{
    if rs.len() == 0 {
        Seq::empty()
    } else {
        worker_sections(rs.drop_last()) + worker_section(rs.len() - 1, rs.last())
    }
}

/// The Judge prompt for a request and the workers' answers.
pub open spec fn judge_prompt(original: Seq<char>, rs: Seq<WorkerResponse>) -> Seq<char> {
    judge_preamble() + "Original request:\n"@ + original + "\n\nWorker responses:\n"@
        + worker_sections(rs) + "\n\nProvide your analysis using the XML tags specified above."@
}

/// Construct the Judge system prompt requesting XML-formatted diagnostic output.
pub fn build_judge_prompt(original_prompt: &str, worker_responses: &[WorkerResponse]) -> (r: String)
    ensures
        r@ == judge_prompt(original_prompt@, worker_responses@),
{
    let mut p: Vec<char> = Vec::new();
    push_str(&mut p, "You are a technical judge reviewing analyses from multiple AI models.\n");
    push_str(&mut p, "Review their responses and produce a structured diagnostic in XML format.\n");
    push_str(&mut p, "Use the following tags:\n");
    push_str(&mut p, "- <consensus>: Points all workers agreed on\n");
    push_str(&mut p, "- <contradictions>: Where workers disagree\n");
    push_str(&mut p, "- <coverage_gaps>: Important aspects no worker covered\n");
    push_str(&mut p, "- <unique_insights>: Valuable points from individual workers\n");
    push_str(&mut p, "- <final_plan>: The recommended action plan (required)\n\n");
    assert(p@ =~= judge_preamble());
    push_str(&mut p, "Original request:\n");
    push_str(&mut p, original_prompt);
    push_str(&mut p, "\n\nWorker responses:\n");
    let ghost head = p@;
    let mut i: usize = 0;
    assert(worker_responses@.take(0) =~= Seq::<WorkerResponse>::empty());
    while i < worker_responses.len()
        invariant
            i <= worker_responses@.len(),
            p@ == head + worker_sections(worker_responses@.take(i as int)),
        decreases worker_responses@.len() - i,
    {
        let resp = &worker_responses[i];
        let ghost before = p@;
        push_str(&mut p, "\n--- Worker ");
        let n = u64_decimal((i + 1) as u64);
        push_all(&mut p, n.as_slice());
        push_str(&mut p, " (");
        push_str(&mut p, resp.endpoint.as_str());
        push_str(&mut p, ") ---\n");
        match &resp.content {
            Ok(content) => push_str(&mut p, content.as_str()),
            Err(err) => {
                push_str(&mut p, "[Error: ");
                push_str(&mut p, err.as_str());
                push_str(&mut p, "]");
            },
        }
        proof {
            let t = worker_responses@.take(i + 1);
            assert(t.drop_last() =~= worker_responses@.take(i as int));
            assert(t.last() == worker_responses@[i as int]);
            assert(p@ =~= before + worker_section(i as int, worker_responses@[i as int]));
        }
        i = i + 1;
    }
    assert(worker_responses@.take(worker_responses@.len() as int) =~= worker_responses@);
    push_str(&mut p, "\n\nProvide your analysis using the XML tags specified above.");
    assert(p@ =~= judge_prompt(original_prompt@, worker_responses@));
    string_from_chars(p.as_slice())
}

/// Result of reading the Judge's XML-tagged reply.
#[derive(Debug)]
pub struct JudgeAnalysis {
    pub consensus: String,
    pub contradictions: String,
    pub coverage_gaps: String,
    pub unique_insights: String,
    pub final_plan: String,
    /// The full reply, kept whole in case the tags are incomplete.
    pub raw: String,
}

/// `<tag>`.
pub open spec fn open_tag(tag: Seq<char>) -> Seq<char> {
    seq!['<'] + tag + seq!['>']
}

/// `</tag>`.
pub open spec fn close_tag(tag: Seq<char>) -> Seq<char> {
    seq!['<', '/'] + tag + seq!['>']
}

/// The trimmed text between the first `<tag>` and the first `</tag>` when
/// the latter does not begin before the former ends; empty otherwise.
pub open spec fn tag_content(text: Seq<char>, tag: Seq<char>) -> Seq<char> {
    let open = open_tag(tag);
    match (first_index(text, open), first_index(text, close_tag(tag))) {
        (Some(s), Some(e)) => if s + open.len() <= e {
            trim(text.subrange(s + open.len(), e))
        } else {
            Seq::empty()
        },
        _ => Seq::empty(),
    }
}

/// The final plan read from a reply: the `final_plan` tag, or the whole
/// trimmed reply when none of the five tags has content.
pub open spec fn effective_final_plan(text: Seq<char>) -> Seq<char> {
    if tag_content(text, "final_plan"@).len() == 0 && tag_content(text, "consensus"@).len() == 0
        && tag_content(text, "contradictions"@).len() == 0 && tag_content(text, "coverage_gaps"@).len()
        == 0 && tag_content(text, "unique_insights"@).len() == 0 {
        trim(text)
    } else {
        tag_content(text, "final_plan"@)
    }
}

/// Text between `<tag>` and `</tag>`, trimmed.
fn extract_tag(text: &str, tag: &str) -> (r: String)
    ensures
        r@ == tag_content(text@, tag@),
{
    let t = chars_of(text);
    let mut open: Vec<char> = vec!['<'];
    push_str(&mut open, tag);
    open.push('>');
    let mut close: Vec<char> = vec!['<', '/'];
    push_str(&mut close, tag);
    close.push('>');
    assert(open@ =~= open_tag(tag@));
    assert(close@ =~= close_tag(tag@));
    match (find(t.as_slice(), open.as_slice()), find(t.as_slice(), close.as_slice())) {
        (Some(start), Some(end)) => {
            if start <= end && open.len() <= end - start {
                let inner = slice_chars(t.as_slice(), start + open.len(), end);
                let trimmed = trim_chars(inner.as_slice());
                return string_from_chars(trimmed.as_slice());
            }
        },
        _ => {},
    }
    proof {
        reveal_strlit("");
    }
    owned("")
}

/// Parse XML tags from Judge response text.
pub fn parse_judge_xml(text: &str) -> (r: JudgeAnalysis)
    ensures
        r.consensus@ == tag_content(text@, "consensus"@),
        r.contradictions@ == tag_content(text@, "contradictions"@),
        r.coverage_gaps@ == tag_content(text@, "coverage_gaps"@),
        r.unique_insights@ == tag_content(text@, "unique_insights"@),
        r.final_plan@ == effective_final_plan(text@),
        r.raw@ == text@,
{
    let consensus = extract_tag(text, "consensus");
    let contradictions = extract_tag(text, "contradictions");
    let coverage_gaps = extract_tag(text, "coverage_gaps");
    let unique_insights = extract_tag(text, "unique_insights");
    let final_plan = extract_tag(text, "final_plan");
    let effective_final_plan = if final_plan.as_str().is_empty() && consensus.as_str().is_empty()
        && contradictions.as_str().is_empty() && coverage_gaps.as_str().is_empty()
        && unique_insights.as_str().is_empty() {
        crate::text::trim_str(text)
    } else {
        final_plan
    };
    JudgeAnalysis {
        consensus,
        contradictions,
        coverage_gaps,
        unique_insights,
        final_plan: effective_final_plan,
        raw: owned(text),
    }
}

/// No `<` in the text: no tag occurs.
proof fn lemma_no_tag(text: Seq<char>, tag: Seq<char>)
    requires
        forall|i: int| 0 <= i < text.len() ==> text[i] != '<',
    ensures
        tag_content(text, tag) == Seq::<char>::empty(),
{
    assert forall|i: int| !crate::text::occurs_at(text, open_tag(tag), i) by {
        if crate::text::occurs_at(text, open_tag(tag), i) {
            assert(text.subrange(i, i + open_tag(tag).len())[0] == text[i]);
        }
    }
    crate::text::lemma_absent_first_index(text, open_tag(tag));
}

/// A reply without tags is taken whole: every tag reads empty and the final
/// plan is the trimmed reply.
pub proof fn law_untagged_reply_is_the_plan(text: Seq<char>)
    requires
        forall|i: int| 0 <= i < text.len() ==> text[i] != '<',
    ensures
        tag_content(text, "consensus"@) == Seq::<char>::empty(),
        tag_content(text, "contradictions"@) == Seq::<char>::empty(),
        tag_content(text, "coverage_gaps"@) == Seq::<char>::empty(),
        tag_content(text, "unique_insights"@) == Seq::<char>::empty(),
        tag_content(text, "final_plan"@) == Seq::<char>::empty(),
        effective_final_plan(text) == trim(text),
{
    lemma_no_tag(text, "consensus"@);
    lemma_no_tag(text, "contradictions"@);
    lemma_no_tag(text, "coverage_gaps"@);
    lemma_no_tag(text, "unique_insights"@);
    lemma_no_tag(text, "final_plan"@);
}

} // verus!
