//! Chat Completions API: request validation, the routing decision for a
//! request, OpenAI-compatible response and stream-chunk construction, and
//! the helpers of the legacy diagnostic path.
//!
//! Routing decision tree:
//!   1. FusionGuard check (subrequest → forced passthrough)
//!   2. Model alias check (the Fusion alias → Fusion pipeline)
//!   3. Tool presence check (the Fusion tool in `tools` → Fusion pipeline)
//!   4. Fusion tool call in the last assistant message → Fusion pipeline
//!   5. Standard passthrough when Fusion models are registered, else the
//!      legacy sniffing of the conversation.

use vstd::prelude::*;
use vstd::utf8::encode_utf8;
use crate::config::{Config, ModelEntry};
use crate::json::{Json, field, str_of, array_of, first_of, opt_field, same_text};
use crate::numfmt::{hex, zero_pad, u64_hex, pad_zeros, decimal, u64_decimal};
use crate::strmap::{lookup, keys_of};
use crate::text::{
    chars_of, owned, push_all, push_str, string_from_chars,
};
use crate::types::{
    DeliberateArgs, FusionGuard, Message, content_of, deliberate_args_text, strs, clone_strings,
};

verus! {

broadcast use vstd::string::group_string_axioms;

/// A single message in a chat completion response (assistant reply).
#[derive(Debug, Clone)]
pub struct ResponseMessage {
    pub role: String,
    pub content: String,
}

/// A single choice in the response.
#[derive(Debug, Clone)]
pub struct Choice {
    pub index: usize,
    pub message: ResponseMessage,
    pub finish_reason: String,
}

/// Token usage statistics.
#[derive(Debug, Clone, Copy)]
pub struct Usage {
    pub prompt_tokens: usize,
    pub completion_tokens: usize,
    pub total_tokens: usize,
}

/// Standard OpenAI-compatible chat completion response.
#[derive(Debug, Clone)]
pub struct ChatCompletionResponse {
    pub id: String,
    pub object: String,
    pub created: u64,
    pub model: String,
    pub choices: Vec<Choice>,
    pub usage: Usage,
}

/// A single delta chunk for streaming responses.
#[derive(Debug, Clone)]
pub struct DeltaMessage {
    pub role: Option<String>,
    pub content: Option<String>,
}

/// A single streaming choice.
#[derive(Debug, Clone)]
pub struct StreamingChoice {
    pub index: usize,
    pub delta: DeltaMessage,
    pub finish_reason: Option<String>,
}

/// A single SSE chunk in a streaming response.
#[derive(Debug, Clone)]
pub struct ChatCompletionChunk {
    pub id: String,
    pub object: String,
    pub created: u64,
    pub model: String,
    pub choices: Vec<StreamingChoice>,
}

/// The pseudo-random suffix of a completion id made at `ts`: the low 16
/// bits of the low 32 bits of `ts` times 2654435761, modulo 2^32.
pub open spec fn id_suffix(ts: u64) -> nat {
    (((ts as nat % 0x1_0000_0000) * 2654435761) % 0x1_0000_0000) % 0x10000
}

/// The completion id made at `ts`: `chatcmpl-`, `ts` in hex, then the
/// suffix as four hex digits.
pub open spec fn chat_id(ts: u64) -> Seq<char> {
    "chatcmpl-"@ + hex(ts as nat) + zero_pad(hex(id_suffix(ts)), 4)
}

/// The completion id for the instant `ts`.
pub fn chat_id_at(ts: u64) -> (r: String)
    ensures
        r@ == chat_id(ts),
{
    let low = ts as u32;
    assert(low as u64 == ts % 0x1_0000_0000) by (bit_vector)
        requires
            low == ts as u32,
    ;
    let mixed: u32 = low.wrapping_mul(2654435761);
    let suffix: u32 = mixed & 0xFFFF;
    assert(suffix == mixed % 0x10000) by (bit_vector)
        requires
            suffix == mixed & 0xFFFF,
    ;
    let mut v = chars_of("chatcmpl-");
    let h = u64_hex(ts);
    push_all(&mut v, h.as_slice());
    let s = pad_zeros(u64_hex(suffix as u64), 4);
    push_all(&mut v, s.as_slice());
    string_from_chars(v.as_slice())
}

/// A fresh completion id, made from the current time.
pub fn generate_id() -> (r: String)
    ensures
        exists|ts: u64| r@ == chat_id(ts),
{
    chat_id_at(current_timestamp())
}

/// Seconds since the Unix epoch.
pub fn current_timestamp() -> (r: u64) {
    crate::clock::now_secs()
}

/// Number of UTF-8 bytes of a text.
pub open spec fn byte_len(s: Seq<char>) -> nat {
    encode_utf8(s).len()
}

/// Completion tokens estimated for a reply: a quarter of its bytes,
/// rounded up, and at least 1.
pub open spec fn estimated_tokens(content: Seq<char>) -> nat {
    let q = (byte_len(content) + 3) / 4;
    if q == 0 { 1 } else { q }
}

/// The response answering with `content` from `model`, made at `created`
/// under the id `id`.
pub open spec fn is_completion(r: ChatCompletionResponse, model: Seq<char>, content: Seq<char>) -> bool {
    &&& r.object@ == "chat.completion"@
    &&& r.model@ == model
    &&& r.choices@.len() == 1
    &&& r.choices@[0].index == 0
    &&& r.choices@[0].message.role@ == "assistant"@
    &&& r.choices@[0].message.content@ == content
    &&& r.choices@[0].finish_reason@ == "stop"@
    &&& r.usage.prompt_tokens == 0
    &&& r.usage.completion_tokens == estimated_tokens(content)
    &&& r.usage.total_tokens == estimated_tokens(content)
}

impl ChatCompletionResponse {
    /// A complete (non-streaming) response with the given content, made now.
    pub fn new(model: &str, content: &str) -> (r: Self)
        ensures
            is_completion(r, model@, content@),
            r.id@ == chat_id(r.created),
    {
        Self::made_at(model, content, current_timestamp())
    }

    /// A complete response with the given content, made at `created`.
    pub fn made_at(model: &str, content: &str, created: u64) -> (r: Self)
        ensures
            is_completion(r, model@, content@),
            r.id@ == chat_id(created),
            r.created == created,
    {
        let bytes = content.as_bytes().len();
        let q = bytes / 4 + if bytes % 4 == 0 { 0 } else { 1 };
        let completion_tokens = if q == 0 { 1 } else { q };
        let mut choices: Vec<Choice> = Vec::new();
        choices.push(Choice {
            index: 0,
            message: ResponseMessage { role: owned("assistant"), content: owned(content) },
            finish_reason: owned("stop"),
        });
        Self {
            id: chat_id_at(created),
            object: owned("chat.completion"),
            created,
            model: owned(model),
            choices,
            usage: Usage { prompt_tokens: 0, completion_tokens, total_tokens: completion_tokens },
        }
    }
}

/// View of an optional string slice.
pub open spec fn opt_text(o: Option<&str>) -> Option<Seq<char>> {
    match o {
        Some(s) => Some(s@),
        None => None,
    }
}

/// The stream chunk carrying `content` (none for the closing chunk), with
/// the assistant role exactly when there is content.
pub open spec fn is_stream_chunk(
    c: ChatCompletionChunk,
    id: Seq<char>,
    created: u64,
    model: Seq<char>,
    content: Option<Seq<char>>,
    index: usize,
    finish_reason: Option<Seq<char>>,
) -> bool {
    &&& c.id@ == id
    &&& c.object@ == "chat.completion.chunk"@
    &&& c.created == created
    &&& c.model@ == model
    &&& c.choices@.len() == 1
    &&& c.choices@[0].index == index
    &&& c.choices@[0].delta.role matches Some(r) ==> r@ == "assistant"@
    &&& (c.choices@[0].delta.role is Some) == (content is Some)
    &&& crate::types::opt_str(c.choices@[0].delta.content) == content
    &&& crate::types::opt_str(c.choices@[0].finish_reason) == finish_reason
}

/// One chunk of a streamed response.
pub fn streaming_chunk(
    id: &str,
    created: u64,
    model: &str,
    content: Option<&str>,
    index: usize,
    finish_reason: Option<&str>,
) -> (r: ChatCompletionChunk)
    ensures
        is_stream_chunk(r, id@, created, model@, opt_text(content), index, opt_text(finish_reason)),
{
    let role = match content {
        Some(_) => Some(owned("assistant")),
        None => None,
    };
    let delta_content = match content {
        Some(c) => Some(owned(c)),
        None => None,
    };
    let finish = match finish_reason {
        Some(f) => Some(owned(f)),
        None => None,
    };
    let mut choices: Vec<StreamingChoice> = Vec::new();
    choices.push(StreamingChoice {
        index,
        delta: DeltaMessage { role, content: delta_content },
        finish_reason: finish,
    });
    ChatCompletionChunk {
        id: owned(id),
        object: owned("chat.completion.chunk"),
        created,
        model: owned(model),
        choices,
    }
}

/// The chunks of a streamed response: one per content piece, then a
/// closing chunk with finish reason `stop`.
pub fn sse_chunks(id: &str, created: u64, model: &str, content_chunks: &[String]) -> (r: Vec<ChatCompletionChunk>)
    ensures
        r@.len() == content_chunks@.len() + 1,
        forall|i: int|
            0 <= i < content_chunks@.len() ==> is_stream_chunk(
                #[trigger] r@[i],
                id@,
                created,
                model@,
                Some(content_chunks@[i]@),
                0,
                None,
            ),
        is_stream_chunk(r@[content_chunks@.len() as int], id@, created, model@, None, 0, Some("stop"@)),
{
    let mut out: Vec<ChatCompletionChunk> = Vec::new();
    let mut i: usize = 0;
    while i < content_chunks.len()
        invariant
            i <= content_chunks@.len(),
            out@.len() == i,
            forall|k: int|
                0 <= k < i ==> is_stream_chunk(
                    #[trigger] out@[k],
                    id@,
                    created,
                    model@,
                    Some(content_chunks@[k]@),
                    0,
                    None,
                ),
        decreases content_chunks@.len() - i,
    {
        out.push(streaming_chunk(id, created, model, Some(content_chunks[i].as_str()), 0, None));
        i = i + 1;
    }
    out.push(streaming_chunk(id, created, model, None, 0, Some("stop")));
    out
}

/// Default SSE chunk size for streaming fusion analysis output.
pub const SSE_CHUNK_SIZE: usize = 80;

/// A sequence cut into consecutive pieces of `size` elements (the last one
/// shorter); no pieces for size 0 or an empty sequence.
pub open spec fn pieces<A>(s: Seq<A>, size: nat) -> Seq<Seq<A>>
    decreases s.len(),
{
    if size == 0 || s.len() == 0 {
        Seq::empty()
    } else if s.len() <= size {
        seq![s]
    } else {
        seq![s.take(size as int)] + pieces(s.skip(size as int), size)
    }
}

/// The chunks a text is streamed in: the whole text for size 0, else its
/// consecutive pieces of `size` characters.
pub open spec fn text_chunks(text: Seq<char>, size: nat) -> Seq<Seq<char>> {
    if size == 0 {
        seq![text]
    } else {
        pieces(text, size)
    }
}

/// Split text into chunks of `size` characters for streaming.
pub fn split_into_chunks(text: &str, size: usize) -> (r: Vec<String>)
    ensures
        strs(r@) == text_chunks(text@, size as nat),
{
    if size == 0 {
        let mut v: Vec<String> = Vec::new();
        v.push(owned(text));
        assert(strs(v@) =~= seq![text@]);
        return v;
    }
    let cs = chars_of(text);
    let ghost all = cs@;
    let mut out: Vec<String> = Vec::new();
    let mut start: usize = 0;
    assert(all.skip(0) =~= all);
    assert(strs(out@) =~= Seq::<Seq<char>>::empty());
    while start < cs.len()
        invariant
            all == cs@,
            start <= all.len(),
            size > 0,
            pieces(all, size as nat) == strs(out@) + pieces(all.skip(start as int), size as nat),
        decreases all.len() - start,
    {
        let rest = cs.len() - start;
        let end = if rest <= size { cs.len() } else { start + size };
        let piece = crate::text::slice_chars(cs.as_slice(), start, end);
        let s = string_from_chars(piece.as_slice());
        proof {
            let t = all.skip(start as int);
            assert(piece@ =~= t.take((end - start) as int));
            if rest <= size {
                assert(t.take((end - start) as int) =~= t);
                assert(all.skip(end as int) =~= Seq::<char>::empty());
                assert(pieces(t, size as nat) == seq![t]);
                assert(pieces(all.skip(end as int), size as nat) =~= Seq::<Seq<char>>::empty());
            } else {
                assert(t.skip(size as int) =~= all.skip(end as int));
            }
        }
        let ghost before = strs(out@);
        out.push(s);
        assert(strs(out@) =~= before.push(s@));
        start = end;
    }
    assert(all.skip(start as int) =~= Seq::<char>::empty());
    assert(strs(out@) + Seq::<Seq<char>>::empty() =~= strs(out@));
    out
}

/// The members of an object (none for other values).
pub open spec fn forwarded_members(j: Json) -> Seq<(String, Json)> {
    match j {
        Json::Object(es) => es@,
        _ => Seq::empty(),
    }
}

/// The error body of a failed request: `{"error": {"message": .., "type": ..}}`.
pub open spec fn is_error_body(j: Json, message: Seq<char>, kind: Seq<char>) -> bool {
    &&& str_of(opt_field(field(j, "error"@), "message"@)) == Some(message)
    &&& str_of(opt_field(field(j, "error"@), "type"@)) == Some(kind)
    &&& forwarded_members(j).len() == 1
    &&& j is Object
    &&& forwarded_members(field(j, "error"@)->0).len() == 2
}

/// Builds the error body of a failed request.
pub fn error_body(message: &str, kind: &str) -> (r: Json)
    ensures
        is_error_body(r, message@, kind@),
{
    let mut inner: Vec<(String, Json)> = Vec::new();
    inner.push((owned("message"), Json::Str(owned(message))));
    inner.push((owned("type"), Json::Str(owned(kind))));
    let mut outer: Vec<(String, Json)> = Vec::new();
    outer.push((owned("error"), Json::Object(inner)));
    proof {
        reveal_strlit("message");
        reveal_strlit("type");
        reveal_strlit("error");
        assert("message"@.len() == 7 && "type"@.len() == 4);
        assert(inner@.drop_first()[0] == inner@[1]);
        reveal_with_fuel(crate::json::member, 2);
    }
    Json::Object(outer)
}

/// The message of a failed Fusion pipeline: `Fusion pipeline failed: <error>`.
pub fn fusion_failure_text(error: &str) -> (r: String)
    ensures
        r@ == "Fusion pipeline failed: "@ + error@,
{
    let mut v = chars_of("Fusion pipeline failed: ");
    push_str(&mut v, error);
    string_from_chars(v.as_slice())
}

/// The message of a judge answer with an unsuccessful status:
/// `Judge returned <status>: <body>`.
pub fn judge_status_error(status: &str, body: &str) -> (r: String)
    ensures
        r@ == "Judge returned "@ + status@ + ": "@ + body@,
{
    let mut v = chars_of("Judge returned ");
    push_str(&mut v, status);
    push_str(&mut v, ": ");
    push_str(&mut v, body);
    string_from_chars(v.as_slice())
}

/// The judge a deliberation uses: the one the tool call names, else the
/// configured default judge model.
pub fn judge_model_for(requested: Option<String>, fusion: &crate::config::FusionConfig) -> (r: String)
    ensures
        r@ == match requested {
            Some(m) => m@,
            None => fusion.default_judge_model@,
        },
{
    match requested {
        Some(m) => m,
        None => fusion.default_judge_model.clone(),
    }
}

/// The message of a judge request that could not be made: `Judge request failed: <error>`.
pub fn judge_request_failure_text(error: &str) -> (r: String)
    ensures
        r@ == "Judge request failed: "@ + error@,
{
    let mut v = chars_of("Judge request failed: ");
    push_str(&mut v, error);
    string_from_chars(v.as_slice())
}

/// Top-level request body as received from the client.
#[derive(Debug)]
pub struct RawChatRequest {
    pub model: Option<String>,
    pub messages: Option<Vec<Message>>,
    pub stream: Option<bool>,
    pub session_id: Option<String>,
    pub workspace: Option<String>,
    pub tools: Option<Vec<Json>>,
}

/// Parsed and validated chat completion request.
#[derive(Debug)]
pub struct ChatCompletionRequest {
    pub model: String,
    pub messages: Vec<Message>,
    pub stream: bool,
    pub session_id: Option<String>,
    pub workspace: Option<String>,
    pub tools: Option<Vec<Json>>,
}

/// What makes a message invalid.
pub enum MessageProblem {
    /// The role is empty.
    EmptyRole,
    /// The content is empty where the role needs one: not a tool or
    /// assistant message, and no tool calls.
    EmptyContent,
}

/// The problem of a message, if it has one (an empty role is reported first).
pub open spec fn message_problem(m: Message) -> Option<MessageProblem> {
    if m.role@.len() == 0 {
        Some(MessageProblem::EmptyRole)
    } else if m.role@ != "tool"@ && m.role@ != "assistant"@ && content_of(m).len() == 0
        && m.tool_calls is None {
        Some(MessageProblem::EmptyContent)
    } else {
        None
    }
}

/// Index of the first message, at or after `i`, that has a problem.
pub open spec fn first_problem_from(msgs: Seq<Message>, i: int) -> Option<int>
    decreases msgs.len() - i,
{
    if i < 0 || i >= msgs.len() {
        None
    } else if message_problem(msgs[i]) is Some {
        Some(i)
    } else {
        first_problem_from(msgs, i + 1)
    }
}

/// The error text for the message at index `i` with the given problem.
pub open spec fn problem_text(i: int, p: MessageProblem) -> Seq<char> {
    match p {
        MessageProblem::EmptyRole => "messages["@ + decimal(i as nat)
            + "]: 'role' must not be empty (expected 'system', 'user', or 'assistant')."@,
        MessageProblem::EmptyContent => "messages["@ + decimal(i as nat) + "]: 'content' must not be empty."@,
    }
}

/// Why a raw request is rejected, checked in order: model missing, model
/// empty, messages missing, messages empty, then the first invalid message.
pub open spec fn validation_error(
    model: Option<Seq<char>>,
    msgs: Option<Seq<Message>>,
) -> Option<Seq<char>> {
    match model {
        None => Some("Missing required field: 'model'. The model name must be specified."@),
        Some(m) => if m.len() == 0 {
            Some("'model' must not be empty."@)
        } else {
            match msgs {
                None => Some(
                    "Missing required field: 'messages'. At least one message is required."@,
                ),
                Some(ms) => if ms.len() == 0 {
                    Some("'messages' must contain at least one message."@)
                } else {
                    match first_problem_from(ms, 0) {
                        Some(i) => Some(problem_text(i, message_problem(ms[i])->0)),
                        None => None,
                    }
                },
            }
        },
    }
}

/// Error text for the message at index `i`.
fn problem_message(i: usize, empty_role: bool) -> (r: String)
    ensures
        r@ == problem_text(
            i as int,
            if empty_role { MessageProblem::EmptyRole } else { MessageProblem::EmptyContent },
        ),
{
    let mut v = chars_of("messages[");
    let d = u64_decimal(i as u64);
    push_all(&mut v, d.as_slice());
    if empty_role {
        push_str(&mut v, "]: 'role' must not be empty (expected 'system', 'user', or 'assistant').");
    } else {
        push_str(&mut v, "]: 'content' must not be empty.");
    }
    string_from_chars(v.as_slice())
}

/// Validate a raw request and return a structured request, or the reason
/// it is rejected.
pub fn validate(raw: RawChatRequest) -> (r: Result<ChatCompletionRequest, String>)
    ensures
        match r {
            Err(e) => validation_error(opt_view(raw.model), opt_seq(raw.messages)) == Some(e@),
            Ok(req) => {
                &&& validation_error(opt_view(raw.model), opt_seq(raw.messages)) is None
                &&& raw.model == Some(req.model)
                &&& raw.messages == Some(req.messages)
                &&& req.stream == match raw.stream {
                    Some(b) => b,
                    None => false,
                }
                &&& req.session_id == raw.session_id
                &&& req.workspace == raw.workspace
                &&& req.tools == raw.tools
            },
        },
{
    let model = match raw.model {
        Some(m) => m,
        None => {
            return Err(owned("Missing required field: 'model'. The model name must be specified."));
        },
    };
    if model.as_str().is_empty() {
        return Err(owned("'model' must not be empty."));
    }
    let messages = match raw.messages {
        Some(ms) => ms,
        None => {
            return Err(
                owned("Missing required field: 'messages'. At least one message is required."),
            );
        },
    };
    if messages.len() == 0 {
        return Err(owned("'messages' must contain at least one message."));
    }
    let mut i: usize = 0;
    assert(opt_view(raw.model) == Some(model@));
    assert(opt_seq(raw.messages) == Some(messages@));
    while i < messages.len()
        invariant
            i <= messages@.len(),
            first_problem_from(messages@, 0) == first_problem_from(messages@, i as int),
            opt_view(raw.model) == Some(model@),
            model@.len() > 0,
            opt_seq(raw.messages) == Some(messages@),
            messages@.len() > 0,
        decreases messages@.len() - i,
    {
        let msg = &messages[i];
        if msg.role.as_str().is_empty() {
            assert(message_problem(messages@[i as int]) == Some(MessageProblem::EmptyRole));
            assert(first_problem_from(messages@, i as int) == Some(i as int));
            return Err(problem_message(i, true));
        }
        if !same_text(msg.role.as_str(), "tool") && !same_text(msg.role.as_str(), "assistant")
            && msg.content_str().is_empty() && msg.tool_calls.is_none() {
            assert(message_problem(messages@[i as int]) == Some(MessageProblem::EmptyContent));
            assert(first_problem_from(messages@, i as int) == Some(i as int));
            return Err(problem_message(i, false));
        }
        i = i + 1;
    }
    let stream = match raw.stream {
        Some(b) => b,
        None => false,
    };
    Ok(ChatCompletionRequest {
        model,
        messages,
        stream,
        session_id: raw.session_id,
        workspace: raw.workspace,
        tools: raw.tools,
    })
}

/// View of an optional string.
pub open spec fn opt_view(o: Option<String>) -> Option<Seq<char>> {
    match o {
        Some(s) => Some(s@),
        None => None,
    }
}

/// View of an optional list.
pub open spec fn opt_seq<T>(o: Option<Vec<T>>) -> Option<Seq<T>> {
    match o {
        Some(v) => Some(v@),
        None => None,
    }
}

/// Default panel models: the models of the first preset (by name) when it
/// lists any; otherwise every registered model but the judge, or every
/// registered model when the judge is the only one.
pub open spec fn default_panel_models(
    presets: Seq<(String, Vec<String>)>,
    models: Seq<(String, ModelEntry)>,
    judge: Seq<char>,
) -> Seq<Seq<char>> {
    if presets.len() > 0 && presets[0].1@.len() > 0 {
        strs(presets[0].1@)
    } else {
        let others = keys_of(models).filter(not_named(judge));
        if others.len() == 0 {
            keys_of(models)
        } else {
            others
        }
    }
}

/// Names other than `judge`.
pub open spec fn not_named(judge: Seq<char>) -> spec_fn(Seq<char>) -> bool {
    |k: Seq<char>| k != judge
}

/// Filtering a sequence extended by one element.
proof fn lemma_filter_push<A>(s: Seq<A>, x: A, p: spec_fn(A) -> bool)
    ensures
        s.push(x).filter(p) == (if p(x) {
            s.filter(p).push(x)
        } else {
            s.filter(p)
        }),
{
    reveal(Seq::filter);
    assert(s.push(x).drop_last() =~= s);
}

/// Resolve default panel models from config: use the first preset if available,
/// otherwise use all registered models except the judge.
pub fn resolve_default_panel_models(config: &Config) -> (r: Vec<String>)
    ensures
        strs(r@) == default_panel_models(
            config.fusion.presets@,
            config.fusion.models@,
            config.fusion.default_judge_model@,
        ),
{
    if let Some(first) = config.fusion.presets.first() {
        if first.1.len() > 0 {
            return clone_strings(first.1.as_slice());
        }
    }
    let entries = config.fusion.models.entries();
    let judge = config.fusion.default_judge_model.as_str();
    let ghost keys = keys_of(config.fusion.models@);
    let ghost p = not_named(judge@);
    let mut others: Vec<String> = Vec::new();
    let mut all: Vec<String> = Vec::new();
    let mut i: usize = 0;
    while i < entries.len()
        invariant
            i <= entries@.len(),
            entries@ == config.fusion.models@,
            keys == keys_of(entries@),
            p == not_named(judge@),
            strs(all@) == keys.take(i as int),
            strs(others@) == keys.take(i as int).filter(p),
        decreases entries@.len() - i,
    {
        let k = &entries[i].0;
        proof {
            assert(keys[i as int] == entries@[i as int].0@);
            assert(keys.take(i + 1) =~= keys.take(i as int).push(k@));
            lemma_filter_push(keys.take(i as int), k@, p);
        }
        let ghost before_all = strs(all@);
        let ghost before_others = strs(others@);
        all.push(k.clone());
        assert(strs(all@) =~= before_all.push(k@));
        if !same_text(k.as_str(), judge) {
            others.push(k.clone());
            assert(strs(others@) =~= before_others.push(k@));
        }
        i = i + 1;
    }
    assert(keys.take(i as int) =~= keys);
    if others.len() == 0 {
        all
    } else {
        others
    }
}

/// Routing decision for a chat completion request.
#[derive(Debug)]
pub enum RoutingDecision {
    /// Subrequest: forced single-model passthrough (anti-recursion).
    SubrequestPassthrough,
    /// Fusion pipeline via model alias or tool presence.
    FusionPipeline(DeliberateArgs),
    /// Standard passthrough to executor.
    StandardPassthrough,
    /// Legacy diagnostic/MoA path (backward compat).
    LegacyDiagnostic,
}

/// A tool definition whose function is the Fusion tool.
pub open spec fn names_fusion_tool(tool: Json) -> bool {
    str_of(opt_field(field(tool, "function"@), "name"@)) == Some(crate::types::FUSION_TOOL_NAME@)
}

/// The request offers the Fusion tool among its tools.
pub open spec fn offers_fusion_tool(tools: Option<Vec<Json>>) -> bool {
    match tools {
        Some(ts) => exists|i: int| 0 <= i < ts@.len() && names_fusion_tool(#[trigger] ts@[i]),
        None => false,
    }
}

/// The last assistant message, if any.
pub open spec fn last_assistant(msgs: Seq<Message>) -> Option<Message>
    decreases msgs.len(),
{
    if msgs.len() == 0 {
        None
    } else if msgs.last().role@ == "assistant"@ {
        Some(msgs.last())
    } else {
        last_assistant(msgs.drop_last())
    }
}

/// The arguments of the first call of the Fusion tool (at or after `i`)
/// whose arguments parse.
pub open spec fn fusion_call_args(
    calls: Seq<crate::types::ToolCall>,
    i: int,
) -> Option<(Seq<Seq<char>>, Option<Seq<char>>)>
    decreases calls.len() - i,
{
    if i < 0 || i >= calls.len() {
        None
    } else if calls[i].function.name@ == crate::types::FUSION_TOOL_NAME@ && deliberate_args_text(
        calls[i].function.arguments@,
    ) is Some {
        deliberate_args_text(calls[i].function.arguments@)
    } else {
        fusion_call_args(calls, i + 1)
    }
}

/// The Fusion arguments carried by the last assistant message's tool calls.
pub open spec fn assistant_fusion_args(msgs: Seq<Message>) -> Option<(Seq<Seq<char>>, Option<Seq<char>>)> {
    match last_assistant(msgs) {
        Some(m) => match m.tool_calls {
            Some(calls) => fusion_call_args(calls@, 0),
            None => None,
        },
        None => None,
    }
}

/// The arguments of a Fusion run on the default panel.
pub open spec fn default_fusion_args(config: Config) -> (Seq<Seq<char>>, Option<Seq<char>>) {
    (
        default_panel_models(
            config.fusion.presets@,
            config.fusion.models@,
            config.fusion.default_judge_model@,
        ),
        None,
    )
}

/// The decision tree for a request.
pub open spec fn route_is(
    r: RoutingDecision,
    guard: FusionGuard,
    req: ChatCompletionRequest,
    config: Config,
) -> bool {
    if guard.is_subrequest {
        r is SubrequestPassthrough
    } else if req.model@ == crate::types::FUSION_MODEL_ALIAS@ || offers_fusion_tool(req.tools) {
        r matches RoutingDecision::FusionPipeline(a) && a@ == default_fusion_args(config)
    } else if assistant_fusion_args(req.messages@) is Some {
        r matches RoutingDecision::FusionPipeline(a) && Some(a@) == assistant_fusion_args(req.messages@)
    } else if config.fusion.models@.len() > 0 {
        r is StandardPassthrough
    } else if crate::sniffer::sniff_texts(req.messages@.map_values(|m: Message| content_of(m)), Seq::empty())
        == crate::sniffer::RequestState::Diagnostic {
        r is LegacyDiagnostic
    } else {
        r is StandardPassthrough
    }
}

/// Does some tool define the Fusion tool?
fn offers_fusion(tools: &Vec<Json>) -> (r: bool)
    ensures
        r == exists|i: int| 0 <= i < tools@.len() && names_fusion_tool(#[trigger] tools@[i]),
{
    let mut i: usize = 0;
    while i < tools.len()
        invariant
            i <= tools@.len(),
            forall|k: int| 0 <= k < i ==> !names_fusion_tool(#[trigger] tools@[k]),
        decreases tools@.len() - i,
    {
        let name = crate::json::as_str(crate::json::get_opt(crate::json::get(&tools[i], "function"), "name"));
        if let Some(n) = name {
            if same_text(n.as_str(), crate::types::FUSION_TOOL_NAME) {
                assert(names_fusion_tool(tools@[i as int]));
                return true;
            }
        }
        i = i + 1;
    }
    false
}

/// Arguments of the first Fusion tool call whose arguments parse.
fn fusion_args_in(calls: &Vec<crate::types::ToolCall>) -> (r: Option<DeliberateArgs>)
    ensures
        match r {
            Some(a) => fusion_call_args(calls@, 0) == Some(a@),
            None => fusion_call_args(calls@, 0) is None,
        },
{
    let mut i: usize = 0;
    while i < calls.len()
        invariant
            i <= calls@.len(),
            fusion_call_args(calls@, 0) == fusion_call_args(calls@, i as int),
        decreases calls@.len() - i,
    {
        let tc = &calls[i];
        if same_text(tc.function.name.as_str(), crate::types::FUSION_TOOL_NAME) {
            if let Some(args) = DeliberateArgs::parse(tc.function.arguments.as_str()) {
                return Some(args);
            }
        }
        i = i + 1;
    }
    None
}

/// Position of the last assistant message.
fn last_assistant_index(msgs: &Vec<Message>) -> (r: Option<usize>)
    ensures
        match r {
            Some(j) => j < msgs@.len() && last_assistant(msgs@) == Some(msgs@[j as int]),
            None => last_assistant(msgs@) is None,
        },
{
    let mut i: usize = msgs.len();
    assert(msgs@.take(msgs@.len() as int) =~= msgs@);
    while i > 0
        invariant
            i <= msgs@.len(),
            last_assistant(msgs@) == last_assistant(msgs@.take(i as int)),
        decreases i,
    {
        let ghost t = msgs@.take(i as int);
        assert(t.drop_last() =~= msgs@.take(i - 1));
        assert(t.last() == msgs@[i - 1]);
        if same_text(msgs[i - 1].role.as_str(), "assistant") {
            return Some(i - 1);
        }
        i = i - 1;
    }
    assert(msgs@.take(0) =~= Seq::<Message>::empty());
    None
}

/// Determine routing based on the pure stateless decision tree.
pub fn decide_route(guard: &FusionGuard, req: &ChatCompletionRequest, config: &Config) -> (r: RoutingDecision)
    ensures
        route_is(r, *guard, *req, *config),
{
    if guard.is_subrequest {
        return RoutingDecision::SubrequestPassthrough;
    }
    let fusion_tool = match &req.tools {
        Some(tools) => offers_fusion(tools),
        None => false,
    };
    if same_text(req.model.as_str(), crate::types::FUSION_MODEL_ALIAS) || fusion_tool {
        let panel_models = resolve_default_panel_models(config);
        return RoutingDecision::FusionPipeline(
            DeliberateArgs { analysis_models: panel_models, judge_model: None },
        );
    }
    if let Some(j) = last_assistant_index(&req.messages) {
        if let Some(calls) = &req.messages[j].tool_calls {
            if let Some(args) = fusion_args_in(calls) {
                return RoutingDecision::FusionPipeline(args);
            }
        }
    }
    if !config.fusion.models.is_empty() {
        return RoutingDecision::StandardPassthrough;
    }
    let mut sniff_msgs: Vec<crate::sniffer::Message> = Vec::new();
    let mut i: usize = 0;
    while i < req.messages.len()
        invariant
            i <= req.messages@.len(),
            crate::sniffer::contents(sniff_msgs@) == req.messages@.take(i as int).map_values(
                |m: Message| content_of(m),
            ),
        decreases req.messages@.len() - i,
    {
        let m = &req.messages[i];
        let ghost before = sniff_msgs@;
        let sm = crate::sniffer::Message { role: m.role.clone(), content: owned(m.content_str()) };
        sniff_msgs.push(sm);
        proof {
            assert(sniff_msgs@ == before.push(sm));
            assert(crate::sniffer::contents(sniff_msgs@) =~= crate::sniffer::contents(before).push(
                content_of(req.messages@[i as int]),
            ));
            assert(req.messages@.take(i + 1) =~= req.messages@.take(i as int).push(req.messages@[i as int]));
            assert(req.messages@.take(i + 1).map_values(|m: Message| content_of(m)) =~= req.messages@.take(
                i as int,
            ).map_values(|m: Message| content_of(m)).push(content_of(req.messages@[i as int])));
        }
        i = i + 1;
    }
    assert(req.messages@.take(i as int) =~= req.messages@);
    match crate::sniffer::sniff_state(sniff_msgs.as_slice()) {
        crate::sniffer::RequestState::Diagnostic => RoutingDecision::LegacyDiagnostic,
        crate::sniffer::RequestState::Execution => RoutingDecision::StandardPassthrough,
    }
}

/// Where a passthrough request goes: the chat URL, the upstream model id
/// and the API key.
#[derive(Debug)]
pub struct UpstreamTarget {
    pub url: String,
    pub model_id: String,
    pub api_key: Option<String>,
}

/// The upstream of a passthrough request for `model`: its Fusion registry
/// entry when it has one, else the legacy executor.
pub open spec fn is_passthrough_target(t: UpstreamTarget, config: Config, model: Seq<char>) -> bool {
    match lookup(config.fusion.models@, model) {
        Some(e) => {
            &&& t.url@ == crate::proxy::chat_url(e.endpoint@)
            &&& t.model_id == e.model_id
            &&& t.api_key == e.api_key
        },
        None => {
            &&& t.url@ == crate::proxy::chat_url(config.executor.endpoint@)
            &&& t.model_id == config.executor.model_id
            &&& t.api_key == config.executor.api_key
        },
    }
}

/// The upstream a passthrough request for `model` is forwarded to.
pub fn passthrough_target(config: &Config, model: &str) -> (r: UpstreamTarget)
    ensures
        is_passthrough_target(r, *config, model@),
{
    match config.fusion.get_model(model) {
        Some(entry) => UpstreamTarget {
            url: crate::proxy::build_chat_url(entry.endpoint.as_str()),
            model_id: entry.model_id.clone(),
            api_key: crate::types::clone_opt(&entry.api_key),
        },
        None => UpstreamTarget {
            url: crate::proxy::build_chat_url(config.executor.endpoint.as_str()),
            model_id: config.executor.model_id.clone(),
            api_key: crate::types::clone_opt(&config.executor.api_key),
        },
    }
}

/// The conversation as one text for the Judge: `role: content` per
/// message, joined by newlines.
pub open spec fn transcript_text(msgs: Seq<Message>) -> Seq<char>
    decreases msgs.len(),
{
    if msgs.len() == 0 {
        Seq::empty()
    } else if msgs.len() == 1 {
        msgs[0].role@ + ": "@ + content_of(msgs[0])
    } else {
        transcript_text(msgs.drop_last()) + "\n"@ + msgs.last().role@ + ": "@ + content_of(msgs.last())
    }
}

/// The original request as the legacy Judge prompt quotes it.
pub fn legacy_original_prompt(messages: &[Message]) -> (r: String)
    ensures
        r@ == transcript_text(messages@),
{
    let mut v: Vec<char> = Vec::new();
    let mut i: usize = 0;
    while i < messages.len()
        invariant
            i <= messages@.len(),
            v@ == transcript_text(messages@.take(i as int)),
        decreases messages@.len() - i,
    {
        let ghost t = messages@.take(i + 1);
        assert(t.drop_last() =~= messages@.take(i as int));
        assert(t.last() == messages@[i as int]);
        if i > 0 {
            push_str(&mut v, "\n");
        } else {
            assert(t.len() == 1 && t[0] == messages@[0]);
        }
        push_str(&mut v, messages[i].role.as_str());
        push_str(&mut v, ": ");
        push_str(&mut v, messages[i].content_str());
        i = i + 1;
    }
    assert(messages@.take(messages@.len() as int) =~= messages@);
    string_from_chars(v.as_slice())
}

/// The streaming request sent to the legacy Judge:
/// `{"model": .., "messages": [{"role": "user", "content": ..}], "stream": true}`.
pub open spec fn is_judge_stream_request(j: Json, model: Seq<char>, prompt: Seq<char>) -> bool {
    &&& crate::moa::has_keys(j, seq!["model"@, "messages"@, "stream"@])
    &&& crate::moa::has_text(j, "model"@, model)
    &&& array_of(field(j, "messages"@)) matches Some(a) && a.len() == 1 && crate::moa::has_keys(
        a[0],
        seq!["role"@, "content"@],
    ) && crate::moa::has_text(a[0], "role"@, "user"@) && crate::moa::has_text(a[0], "content"@, prompt)
    &&& field(j, "stream"@) == Some(Json::Bool(true))
}

/// The body of the legacy Judge's streaming request.
pub fn judge_stream_body(model_id: &str, prompt: &str) -> (r: Json)
    ensures
        is_judge_stream_request(r, model_id@, prompt@),
{
    let mut msg: Vec<(String, Json)> = Vec::new();
    msg.push((owned("role"), Json::Str(owned("user"))));
    msg.push((owned("content"), Json::Str(owned(prompt))));
    let mut items: Vec<Json> = Vec::new();
    items.push(Json::Object(msg));
    let mut entries: Vec<(String, Json)> = Vec::new();
    entries.push((owned("model"), Json::Str(owned(model_id))));
    entries.push((owned("messages"), Json::Array(items)));
    entries.push((owned("stream"), Json::Bool(true)));
    proof {
        reveal_strlit("role");
        reveal_strlit("content");
        reveal_strlit("model");
        reveal_strlit("messages");
        reveal_strlit("stream");
        assert("role"@.len() == 4 && "content"@.len() == 7);
        assert("model"@.len() == 5 && "messages"@.len() == 8 && "stream"@.len() == 6);
        reveal_with_fuel(crate::json::member, 3);
        assert(entries@.drop_first()[0] == entries@[1]);
        assert(entries@.drop_first().drop_first()[0] == entries@[2]);
        assert(msg@.drop_first()[0] == msg@[1]);
    }
    Json::Object(entries)
}

/// The lines of a text: the pieces between newline characters.
pub open spec fn lines_from(s: Seq<char>, cur: Seq<char>) -> Seq<Seq<char>>
    decreases s.len(),
{
    if s.len() == 0 {
        seq![cur]
    } else if s[0] == '\n' {
        seq![cur] + lines_from(s.drop_first(), Seq::empty())
    } else {
        lines_from(s.drop_first(), cur.push(s[0]))
    }
}

proof fn lemma_lines_nonempty(s: Seq<char>, cur: Seq<char>)
    ensures
        lines_from(s, cur).len() >= 1,
    decreases s.len(),
{
    if s.len() > 0 {
        if s[0] == '\n' {
            lemma_lines_nonempty(s.drop_first(), Seq::empty());
        } else {
            lemma_lines_nonempty(s.drop_first(), cur.push(s[0]));
        }
    }
}

/// What one line of the Judge's event stream carries.
pub enum StreamLine {
    /// Nothing to relay.
    Skip,
    /// Text to relay to the client.
    Content(String),
    /// The end-of-stream marker.
    Done,
}

/// The text a streamed completion chunk adds: `choices[0].delta.content`.
pub open spec fn delta_content(j: Json) -> Option<Seq<char>> {
    str_of(opt_field(opt_field(first_of(field(j, "choices"@)), "delta"@), "content"@))
}

/// What a line means once trimmed: `data: [DONE]` ends the stream, a
/// `data: ` payload with delta content carries text, anything else is skipped.
pub open spec fn line_meaning(line: Seq<char>) -> Option<Option<Seq<char>>> {
    let t = crate::text::trim(line);
    if t.len() > 0 && crate::text::is_prefix("data: "@, t) {
        let data = t.skip(6);
        if data == "[DONE]"@ {
            None
        } else {
            match crate::json::parsed_json(data) {
                Some(j) => Some(delta_content(j)),
                None => Some(None),
            }
        }
    } else {
        Some(None)
    }
}

/// Relaying lines in order: the texts carried up to the end marker, and
/// whether the marker was reached.
pub open spec fn relay(lines: Seq<Seq<char>>) -> (Seq<Seq<char>>, bool)
    decreases lines.len(),
{
    if lines.len() == 0 {
        (Seq::empty(), false)
    } else {
        match line_meaning(lines[0]) {
            None => (Seq::empty(), true),
            Some(c) => {
                let (rest, done) = relay(lines.drop_first());
                (match c {
                    Some(t) => seq![t] + rest,
                    None => rest,
                }, done)
            },
        }
    }
}

/// The meaning of one line of the Judge's event stream.
pub fn judge_stream_line(line: &[char]) -> (r: StreamLine)
    ensures
        match r {
            StreamLine::Done => line_meaning(line@) is None,
            StreamLine::Content(c) => line_meaning(line@) == Some(Some(c@)),
            StreamLine::Skip => line_meaning(line@) == Some(None::<Seq<char>>),
        },
{
    let t = crate::text::trim_chars(line);
    let prefix = chars_of("data: ");
    proof {
        reveal_strlit("data: ");
    }
    if t.len() == 0 || !crate::text::starts_with(t.as_slice(), prefix.as_slice()) {
        return StreamLine::Skip;
    }
    let data_chars = crate::text::slice_chars(t.as_slice(), 6, t.len());
    assert(data_chars@ =~= t@.skip(6));
    let data = string_from_chars(data_chars.as_slice());
    if same_text(data.as_str(), "[DONE]") {
        return StreamLine::Done;
    }
    judge_stream_payload(crate::json::parse_json(data.as_str()))
}

/// The meaning of a Judge stream payload already parsed as JSON (`None`
/// when it was not JSON): its delta content, if it carries one.
pub fn judge_stream_payload(doc: Option<Json>) -> (r: StreamLine)
    ensures
        match doc {
            Some(j) => match delta_content(j) {
                Some(c) => r matches StreamLine::Content(t) && t@ == c,
                None => r is Skip,
            },
            None => r is Skip,
        },
{
    match doc {
        Some(j) => {
            let c = crate::json::as_str(
                crate::json::get_opt(crate::json::get_opt(crate::json::first(crate::json::get(&j, "choices")), "delta"), "content"),
            );
            match c {
                Some(text) => StreamLine::Content(text.clone()),
                None => StreamLine::Skip,
            }
        },
        None => StreamLine::Skip,
    }
}

/// What a piece of the Judge's event stream relays: the texts carried by
/// its lines up to the end marker, and whether the marker was reached.
pub fn relay_judge_text(text: &str) -> (r: (Vec<String>, bool))
    ensures
        (strs(r.0@), r.1) == relay(lines_from(text@, Seq::empty())),
{
    let c = chars_of(text);
    let mut out: Vec<String> = Vec::new();
    let mut cur: Vec<char> = Vec::new();
    let mut i: usize = 0;
    let ghost all = lines_from(c@, Seq::empty());
    let ghost mut k: int = 0;
    assert(c@.skip(0) =~= c@);
    proof {
        lemma_lines_nonempty(c@, Seq::empty());
        assert(all.skip(0) =~= all);
    }
    loop
        invariant
            i <= c@.len(),
            c@ == text@,
            all == lines_from(c@, Seq::empty()),
            0 <= k < all.len(),
            lines_from(c@.skip(i as int), cur@) == all.skip(k),
            relay(all) == (strs(out@) + relay(all.skip(k)).0, relay(all.skip(k)).1),
        decreases c@.len() - i, (if i < c@.len() { 1int } else { 0int }),
    {
        if i < c.len() && c[i] != '\n' {
            let ghost s = c@.skip(i as int);
            assert(s.drop_first() =~= c@.skip(i + 1));
            let ghost old_cur = cur@;
            cur.push(c[i]);
            assert(lines_from(s, old_cur) == lines_from(c@.skip(i + 1), cur@));
            i = i + 1;
        } else {
            let ghost s = c@.skip(i as int);
            let ghost rest = all.skip(k);
            proof {
                if i < c@.len() {
                    assert(s.drop_first() =~= c@.skip(i + 1));
                    assert(lines_from(s, cur@) == seq![cur@] + lines_from(c@.skip(i + 1), Seq::empty()));
                } else {
                    assert(s.len() == 0);
                }
                assert(rest.len() > 0 && rest[0] == cur@);
                assert(rest.drop_first() =~= all.skip(k + 1));
            }
            match judge_stream_line(cur.as_slice()) {
                StreamLine::Done => {
                    assert(relay(rest) == (Seq::<Seq<char>>::empty(), true));
                    assert(strs(out@) + Seq::<Seq<char>>::empty() =~= strs(out@));
                    return (out, true);
                },
                StreamLine::Content(t) => {
                    let ghost before = strs(out@);
                    out.push(t);
                    assert(strs(out@) =~= before.push(t@));
                    assert(relay(rest).0 =~= seq![t@] + relay(rest.drop_first()).0);
                    assert(relay(rest).1 == relay(rest.drop_first()).1);
                    assert(before + relay(rest).0 =~= strs(out@) + relay(rest.drop_first()).0);
                },
                StreamLine::Skip => {
                    assert(relay(rest) == relay(rest.drop_first()));
                },
            }
            assert(relay(all) == (strs(out@) + relay(all.skip(k + 1)).0, relay(all.skip(k + 1)).1));
            if i == c.len() {
                proof {
                    assert(lines_from(s, cur@) == seq![cur@]);
                    assert(all.skip(k + 1).len() == 0);
                    assert(relay(all.skip(k + 1)) == (Seq::<Seq<char>>::empty(), false));
                }
                assert(strs(out@) + Seq::<Seq<char>>::empty() =~= strs(out@));
                return (out, false);
            }
            cur = Vec::new();
            i = i + 1;
            proof {
                lemma_lines_nonempty(c@.skip(i as int), Seq::empty());
                k = k + 1;
            }
        }
    }
}

/// Pieces joined back together, in order.
pub open spec fn joined<A>(cs: Seq<Seq<A>>) -> Seq<A>
    decreases cs.len(),
{
    if cs.len() == 0 {
        Seq::empty()
    } else {
        cs[0] + joined(cs.drop_first())
    }
}

/// Cutting loses nothing: the pieces join back into the sequence, each
/// piece is non-empty and at most `size` long, and every piece but the
/// last is exactly `size` long.
pub proof fn law_pieces_reassemble<A>(b: Seq<A>, size: nat)
    requires
        size > 0,
    ensures
        joined(pieces(b, size)) == b,
        forall|i: int| 0 <= i < pieces(b, size).len() ==> 0 < #[trigger] pieces(b, size)[i].len() <= size,
        forall|i: int| 0 <= i < pieces(b, size).len() - 1 ==> #[trigger] pieces(b, size)[i].len() == size,
    decreases b.len(),
{
    let cs = pieces(b, size);
    if b.len() == 0 {
        assert(joined(cs) =~= b);
    } else if b.len() <= size {
        assert(cs.drop_first() =~= Seq::<Seq<A>>::empty());
        assert(joined(cs.drop_first()) == Seq::<A>::empty());
        assert(joined(cs) =~= b);
    } else {
        let rest = pieces(b.skip(size as int), size);
        law_pieces_reassemble(b.skip(size as int), size);
        assert(cs.drop_first() =~= rest);
        assert(joined(cs) =~= b.take(size as int) + b.skip(size as int));
        assert(b.take(size as int) + b.skip(size as int) =~= b);
        assert forall|i: int| 0 < i < cs.len() implies #[trigger] cs[i] == rest[i - 1] by {}
    }
}

/// Streaming loses nothing: the chunks of a text concatenate back into the
/// text, and with a positive size no chunk is empty and none is longer
/// than `size` characters.
pub proof fn law_chunks_reassemble(text: Seq<char>, size: nat)
    ensures
        joined(text_chunks(text, size)) == text,
        size > 0 ==> forall|i: int| 0 <= i < text_chunks(text, size).len()
            ==> 0 < #[trigger] text_chunks(text, size)[i].len() <= size,
{
    if size == 0 {
        let cs = text_chunks(text, size);
        assert(cs.drop_first() =~= Seq::<Seq<char>>::empty());
        assert(joined(cs.drop_first()) == Seq::<char>::empty());
        assert(joined(cs) =~= text);
    } else {
        law_pieces_reassemble(text, size);
    }
}

proof fn lemma_no_problem_from(ms: Seq<Message>, i: int)
    requires
        0 <= i,
        first_problem_from(ms, i) is None,
    ensures
        forall|j: int| i <= j < ms.len() ==> message_problem(#[trigger] ms[j]) is None,
    decreases ms.len() - i,
{
    if i < ms.len() {
        lemma_no_problem_from(ms, i + 1);
    }
}

/// A request that passes validation names a model and carries at least one
/// message, every message has a role, and every message other than a tool
/// result or an assistant turn has content or tool calls.
pub proof fn law_valid_request_shape(model: Seq<char>, msgs: Seq<Message>)
    requires
        validation_error(Some(model), Some(msgs)) is None,
    ensures
        model.len() > 0,
        msgs.len() > 0,
        forall|j: int| 0 <= j < msgs.len() ==> (#[trigger] msgs[j]).role@.len() > 0,
        forall|j: int|
            0 <= j < msgs.len() && (#[trigger] msgs[j]).role@ != "tool"@ && msgs[j].role@ != "assistant"@
                ==> content_of(msgs[j]).len() > 0 || msgs[j].tool_calls is Some,
{
    lemma_no_problem_from(msgs, 0);
}

/// Anti-recursion: a sub-request is always passed through to a single
/// model, whatever it asks for.
pub proof fn law_subrequest_is_passed_through(
    r: RoutingDecision,
    guard: FusionGuard,
    req: ChatCompletionRequest,
    config: Config,
)
    requires
        route_is(r, guard, req, config),
        guard.is_subrequest,
    ensures
        r is SubrequestPassthrough,
{
}

/// With no usable first preset, the default panel leaves the default judge
/// out: every name on it is a registered model other than the judge, and
/// every registered model other than the judge is on it. Only when the judge
/// is the sole registered model does the panel fall back to all models.
/// With a non-empty first preset, the panel is that preset.
pub proof fn law_default_panel_leaves_out_judge(
    presets: Seq<(String, Vec<String>)>,
    models: Seq<(String, ModelEntry)>,
    judge: Seq<char>,
)
    ensures
        presets.len() > 0 && presets[0].1@.len() > 0 ==> default_panel_models(presets, models, judge)
            == strs(presets[0].1@),
        !(presets.len() > 0 && presets[0].1@.len() > 0) && (exists|i: int|
            0 <= i < models.len() && #[trigger] models[i].0@ != judge) ==> {
            let panel = default_panel_models(presets, models, judge);
            &&& forall|k: int| 0 <= k < panel.len() ==> panel[k] != judge
            &&& forall|k: int| #![trigger panel[k]] 0 <= k < panel.len() ==> exists|i: int|
                0 <= i < models.len() && #[trigger] models[i].0@ == panel[k]
            &&& forall|i: int| 0 <= i < models.len() && models[i].0@ != judge ==> panel.contains(
                #[trigger] models[i].0@,
            )
        },
        !(presets.len() > 0 && presets[0].1@.len() > 0) && (forall|i: int|
            0 <= i < models.len() ==> #[trigger] models[i].0@ == judge) ==> default_panel_models(
            presets,
            models,
            judge,
        ) == keys_of(models),
{
    broadcast use vstd::seq_lib::group_filter_ensures;

    let keys = keys_of(models);
    let p = not_named(judge);
    let others = keys.filter(p);
    if !(presets.len() > 0 && presets[0].1@.len() > 0) {
        if exists|i: int| 0 <= i < models.len() && #[trigger] models[i].0@ != judge {
            let i = choose|i: int| 0 <= i < models.len() && #[trigger] models[i].0@ != judge;
            assert(keys[i] == models[i].0@);
            assert(p(keys[i]));
            assert(others.contains(keys[i]));
            assert(others.len() > 0);
            assert forall|k: int| #![trigger others[k]] 0 <= k < others.len() implies exists|i: int|
                0 <= i < models.len() && #[trigger] models[i].0@ == others[k] by {
                assert(others.contains(others[k]));
                keys.lemma_filter_contains_rev(p, others[k]);
                let j = choose|j: int| 0 <= j < keys.len() && keys[j] == others[k];
                assert(models[j].0@ == others[k]);
            }
            assert forall|i: int| 0 <= i < models.len() && models[i].0@ != judge implies others.contains(
                #[trigger] models[i].0@,
            ) by {
                assert(keys[i] == models[i].0@);
                assert(p(keys[i]));
            }
            assert forall|k: int| 0 <= k < others.len() implies others[k] != judge by {
                assert(p(others[k]));
            }
        } else {
            if others.len() > 0 {
                let k = 0int;
                assert(others.contains(others[k]));
                keys.lemma_filter_contains_rev(p, others[k]);
                let j = choose|j: int| 0 <= j < keys.len() && keys[j] == others[k];
                assert(models[j].0@ == keys[j]);
                assert(p(others[k]));
                assert(models[j].0@ != judge);
            }
            assert(others.len() == 0);
        }
    }
}

} // verus!
