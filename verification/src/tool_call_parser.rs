//! Streaming SSE tool-call parser.
//!
//! Incrementally consumes SSE `data:` payloads from an upstream model's
//! response, accumulates `tool_calls` deltas, and detects when a complete
//! `tinyfusion_deliberate` tool call has been assembled.

use vstd::prelude::*;
use crate::json::{
    Json, parsed_json, field, opt_field, str_of, array_of, first_of, u64_of, get, get_opt,
    as_str, as_array, first, as_u64, parse_json, same_text,
};
use crate::text::{trim, trim_str, concat, chars_of, find, first_index, occurs_at};
use crate::types::{
    DeliberateArgs, FunctionCall, ToolCall, FUSION_TOOL_NAME, deliberate_args_text,
    all_strings, texts, string_array,
};

verus! {

/// A tool call as four texts: id, type, function name, function arguments.
pub type CallView = (Seq<char>, Seq<char>, Seq<char>, Seq<char>);

impl View for ToolCall {
    type V = CallView;

    open spec fn view(&self) -> CallView {
        (self.id@, self.call_type@, self.function.name@, self.function.arguments@)
    }
}

/// A tool call under assembly.
#[derive(Debug, Clone)]
pub struct PartialToolCall {
    id: String,
    call_type: String,
    function_name: String,
    function_arguments: String,
}

impl View for PartialToolCall {
    type V = CallView;

    closed spec fn view(&self) -> CallView {
        (self.id@, self.call_type@, self.function_name@, self.function_arguments@)
    }
}

impl PartialToolCall {
    fn empty() -> (r: Self)
        ensures
            r@ == empty_call(),
    {
        PartialToolCall {
            id: String::new(),
            call_type: String::new(),
            function_name: String::new(),
            function_arguments: String::new(),
        }
    }
}

/// A call slot nothing has been written to yet.
pub open spec fn empty_call() -> CallView {
    (Seq::empty(), Seq::empty(), Seq::empty(), Seq::empty())
}

/// Accumulated state from streaming SSE chunks.
#[derive(Debug, Clone)]
pub struct StreamingToolCallAccumulator {
    /// Tool calls indexed by their position in the `tool_calls` array
    /// (their parts are read through the view).
    pub tool_calls: Vec<PartialToolCall>,
    /// Accumulated text content (for non-tool-call responses).
    pub text_content: String,
    /// Whether the stream has finished (received `[DONE]`).
    pub done: bool,
    /// The `finish_reason` from the last chunk that carried one.
    pub finish_reason: Option<String>,
}

/// Abstract accumulator: call slots, text so far, done flag, finish reason.
pub type AccView = (Seq<CallView>, Seq<char>, bool, Option<Seq<char>>);

impl StreamingToolCallAccumulator {
    /// The call slots assembled so far, by position.
    pub open spec fn calls(&self) -> Seq<CallView> {
        self.tool_calls@.map_values(|p: PartialToolCall| p@)
    }
}

impl View for StreamingToolCallAccumulator {
    type V = AccView;

    open spec fn view(&self) -> AccView {
        (
            self.calls(),
            self.text_content@,
            self.done,
            match self.finish_reason {
                Some(s) => Some(s@),
                None => None,
            },
        )
    }
}

/// Result of feeding a chunk to the accumulator.
#[derive(Debug)]
pub enum ParseResult {
    /// Regular text content delta.
    TextDelta(String),
    /// A complete tool call for `tinyfusion_deliberate` was detected.
    FusionToolCallComplete(ToolCall, DeliberateArgs),
    /// A non-fusion tool call was completed.
    OtherToolCallComplete(ToolCall),
    /// Stream finished with `[DONE]`.
    Done,
    /// Nothing actionable in this chunk.
    Continue,
}

/// Abstract outcome of feeding one chunk.
pub enum Outcome {
    TextDelta(Seq<char>),
    FusionCall(CallView, (Seq<Seq<char>>, Option<Seq<char>>)),
    OtherCall(CallView),
    Done,
    Continue,
}

impl View for ParseResult {
    type V = Outcome;

    open spec fn view(&self) -> Outcome {
        match self {
            ParseResult::TextDelta(s) => Outcome::TextDelta(s@),
            ParseResult::FusionToolCallComplete(tc, a) => Outcome::FusionCall(tc@, a@),
            ParseResult::OtherToolCallComplete(tc) => Outcome::OtherCall(tc@),
            ParseResult::Done => Outcome::Done,
            ParseResult::Continue => Outcome::Continue,
        }
    }
}

/// `calls` padded with empty slots to at least `n` entries.
pub open spec fn extend_to(calls: Seq<CallView>, n: int) -> Seq<CallView> {
    if calls.len() >= n {
        calls
    } else {
        calls + Seq::new((n - calls.len()) as nat, |i: int| empty_call())
    }
}

/// Slot a `tool_calls` delta entry addresses (its `index`, 0 when absent).
pub open spec fn delta_index(tc: Json) -> int {
    match u64_of(field(tc, "index"@)) {
        Some(n) => (n as usize) as int,
        None => 0,
    }
}

/// Effect of one `tool_calls` delta entry: `id` and `type` replace, name and
/// arguments fragments are appended, in the addressed slot.
pub open spec fn apply_delta(calls: Seq<CallView>, tc: Json) -> Seq<CallView> {
    let idx = delta_index(tc);
    let ext = extend_to(calls, idx + 1);
    let old = ext[idx];
    let f = field(tc, "function"@);
    let id = match str_of(field(tc, "id"@)) {
        Some(s) => s,
        None => old.0,
    };
    let ty = match str_of(field(tc, "type"@)) {
        Some(s) => s,
        None => old.1,
    };
    let name = match str_of(opt_field(f, "name"@)) {
        Some(s) => old.2 + s,
        None => old.2,
    };
    let args = match str_of(opt_field(f, "arguments"@)) {
        Some(s) => old.3 + s,
        None => old.3,
    };
    ext.update(idx, (id, ty, name, args))
}

/// Effect of a whole `tool_calls` delta array, entry by entry.
pub open spec fn apply_deltas(calls: Seq<CallView>, tcs: Seq<Json>) -> Seq<CallView>
    decreases tcs.len(),
{
    if tcs.len() == 0 {
        calls
    } else {
        apply_delta(apply_deltas(calls, tcs.drop_last()), tcs.last())
    }
}

/// The tool call an assembled slot denotes (type defaults to `function`).
pub open spec fn as_call(c: CallView) -> CallView {
    (c.0, if c.1.len() == 0 { "function"@ } else { c.1 }, c.2, c.3)
}

/// What a finished stream yields: the first slot with a name, as a Fusion
/// call when it names the Fusion tool and its arguments parse.
pub open spec fn completion(calls: Seq<CallView>) -> Outcome
    decreases calls.len(),
{
    if calls.len() == 0 {
        Outcome::Continue
    } else if calls[0].2.len() == 0 {
        completion(calls.drop_first())
    } else if calls[0].2 == FUSION_TOOL_NAME@ && deliberate_args_text(calls[0].3) is Some {
        Outcome::FusionCall(as_call(calls[0]), deliberate_args_text(calls[0].3)->0)
    } else {
        Outcome::OtherCall(as_call(calls[0]))
    }
}

/// Effect of feeding one SSE payload `data` to an accumulator in state `st`:
/// `[DONE]` finishes the stream; anything else is parsed as JSON.
pub open spec fn feed(st: AccView, data: Seq<char>) -> (AccView, Outcome) {
    let t = trim(data);
    if t == "[DONE]"@ {
        ((st.0, st.1, true, st.3), Outcome::Done)
    } else {
        feed_doc(st, parsed_json(t))
    }
}

/// Effect of a parsed SSE payload (`None` when it was not JSON): a text
/// delta is appended, `tool_calls` deltas are applied, a `finish_reason` is
/// kept, and once there is one the assembled call is reported.
pub open spec fn feed_doc(st: AccView, doc: Option<Json>) -> (AccView, Outcome) {
    {
        match doc {
            None => (st, Outcome::Continue),
            Some(doc) => match first_of(field(doc, "choices"@)) {
                None => (st, Outcome::Continue),
                Some(choice) => {
                    let fin = match str_of(field(choice, "finish_reason"@)) {
                        Some(fr) => Some(fr),
                        None => st.3,
                    };
                    match field(choice, "delta"@) {
                        None => ((st.0, st.1, st.2, fin), Outcome::Continue),
                        Some(delta) => match str_of(field(delta, "content"@)) {
                            Some(c) => ((st.0, st.1 + c, st.2, fin), Outcome::TextDelta(c)),
                            None => {
                                let calls = match array_of(field(delta, "tool_calls"@)) {
                                    Some(tcs) => apply_deltas(st.0, tcs),
                                    None => st.0,
                                };
                                (
                                    (calls, st.1, st.2, fin),
                                    if fin is Some {
                                        completion(calls)
                                    } else {
                                        Outcome::Continue
                                    },
                                )
                            },
                        },
                    }
                },
            },
        }
    }
}

/// The string elements of an array, in order, skipping the others.
pub open spec fn string_elems(a: Seq<Json>) -> Seq<Seq<char>>
    decreases a.len(),
{
    if a.len() == 0 {
        Seq::empty()
    } else {
        match a.last() {
            Json::Str(s) => string_elems(a.drop_last()).push(s@),
            _ => string_elems(a.drop_last()),
        }
    }
}

/// Model names readable from (possibly incomplete) arguments text: the
/// string elements of `analysis_models` when the text parses, else the
/// first bracketed span when it parses as a non-empty array of strings.
pub open spec fn early_models(args: Seq<char>) -> Option<Seq<Seq<char>>> {
    let from_doc = match array_of(opt_field(parsed_json(args), "analysis_models"@)) {
        Some(a) => string_elems(a),
        None => Seq::empty(),
    };
    if from_doc.len() > 0 {
        Some(from_doc)
    } else {
        match (first_index(args, "["@), first_index(args, "]"@)) {
            (Some(s), Some(e)) => if e > s {
                match parsed_json(args.subrange(s, e + 1)) {
                    Some(Json::Array(a)) => if all_strings(a@) && a@.len() > 0 {
                        Some(texts(a@))
                    } else {
                        None
                    },
                    _ => None,
                }
            } else {
                None
            },
            _ => None,
        }
    }
}

/// Early fan-out: the models of the first Fusion-tool slot that yields some.
pub open spec fn early_fanout(calls: Seq<CallView>) -> Option<Seq<Seq<char>>>
    decreases calls.len(),
{
    if calls.len() == 0 {
        None
    } else if calls[0].2 == FUSION_TOOL_NAME@ && early_models(calls[0].3) is Some {
        early_models(calls[0].3)
    } else {
        early_fanout(calls.drop_first())
    }
}

/// The tool calls of the slots that have a name, in slot order.
pub open spec fn assembled(calls: Seq<CallView>) -> Seq<CallView>
    decreases calls.len(),
{
    if calls.len() == 0 {
        Seq::empty()
    } else if calls.last().2.len() == 0 {
        assembled(calls.drop_last())
    } else {
        assembled(calls.drop_last()).push(as_call(calls.last()))
    }
}

/// Views of a list of strings.
pub open spec fn names(v: Seq<String>) -> Seq<Seq<char>> {
    v.map_values(|s: String| s@)
}

impl Default for StreamingToolCallAccumulator {
    fn default() -> (r: Self)
        ensures
            r@ == (Seq::<CallView>::empty(), Seq::<char>::empty(), false, None::<Seq<char>>),
    {
        Self::new()
    }
}

impl StreamingToolCallAccumulator {
    /// A fresh accumulator: no calls, no text, not done, no finish reason.
    pub fn new() -> (r: Self)
        ensures
            r@ == (Seq::<CallView>::empty(), Seq::<char>::empty(), false, None::<Seq<char>>),
    {
        let r = Self {
            tool_calls: Vec::new(),
            text_content: String::new(),
            done: false,
            finish_reason: None,
        };
        assert(r@.0 =~= Seq::<CallView>::empty());
        r
    }

    /// Applies one `tool_calls` delta entry.
    fn apply_tool_delta(&mut self, tc: &Json)
        ensures
            final(self)@ == (apply_delta(old(self)@.0, *tc), old(self)@.1, old(self)@.2, old(self)@.3),
    {
        let index: usize = match as_u64(get(tc, "index")) {
            Some(n) => n as usize,
            None => 0,
        };
        let ghost calls0 = old(self)@.0;
        while self.tool_calls.len() <= index
            invariant
                self@.0 == extend_to(calls0, self@.0.len() as int),
                calls0.len() <= self@.0.len(),
                self@.0.len() <= index + 1 || self@.0.len() == calls0.len(),
                self@.1 == old(self)@.1,
                self@.2 == old(self)@.2,
                self@.3 == old(self)@.3,
            decreases index + 1 - self.tool_calls@.len(),
        {
            let ghost before = self@.0;
            let ghost vbefore = self.tool_calls@;
            let e = PartialToolCall::empty();
            self.tool_calls.push(e);
            assert(self.tool_calls@ == vbefore.push(e));
            assert(self@.0 =~= before.push(empty_call()));
            assert(self@.0 =~= extend_to(calls0, self@.0.len() as int));
        }
        assert(self@.0 =~= extend_to(calls0, index + 1));
        let old_call = &self.tool_calls[index];
        let func = get(tc, "function");
        let id = match as_str(get(tc, "id")) {
            Some(s) => s.clone(),
            None => old_call.id.clone(),
        };
        let ty = match as_str(get(tc, "type")) {
            Some(s) => s.clone(),
            None => old_call.call_type.clone(),
        };
        let name = match as_str(get_opt(func, "name")) {
            Some(s) => concat(old_call.function_name.as_str(), s.as_str()),
            None => old_call.function_name.clone(),
        };
        let args = match as_str(get_opt(func, "arguments")) {
            Some(s) => concat(old_call.function_arguments.as_str(), s.as_str()),
            None => old_call.function_arguments.clone(),
        };
        let ghost ext = self@.0;
        self.tool_calls.set(
            index,
            PartialToolCall { id, call_type: ty, function_name: name, function_arguments: args },
        );
        assert(self@.0 =~= ext.update(index as int, (id@, ty@, name@, args@)));
    }

    /// Feeds a raw SSE payload (the part after `data: `) to the accumulator
    /// and reports what happened.
    pub fn feed_sse_data(&mut self, data: &str) -> (r: ParseResult)
        ensures
            (final(self)@, r@) == feed(old(self)@, data@),
    {
        let data = trim_str(data);
        if same_text(data.as_str(), "[DONE]") {
            self.done = true;
            return ParseResult::Done;
        }
        self.feed_document(parse_json(data.as_str()))
    }

    /// Feeds an SSE payload already parsed as JSON (`None` when it was not
    /// JSON) and reports what happened.
    pub fn feed_document(&mut self, doc: Option<Json>) -> (r: ParseResult)
        ensures
            (final(self)@, r@) == feed_doc(old(self)@, doc),
    {
        let parsed = match doc {
            Some(v) => v,
            None => return ParseResult::Continue,
        };
        let choice = match first(get(&parsed, "choices")) {
            Some(c) => c,
            None => return ParseResult::Continue,
        };
        if let Some(fr) = as_str(get(choice, "finish_reason")) {
            self.finish_reason = Some(fr.clone());
        }
        let delta = match get(choice, "delta") {
            Some(d) => d,
            None => return ParseResult::Continue,
        };
        if let Some(content) = as_str(get(delta, "content")) {
            self.text_content = concat(self.text_content.as_str(), content.as_str());
            return ParseResult::TextDelta(content.clone());
        }
        if let Some(tcs) = as_array(get(delta, "tool_calls")) {
            let ghost calls0 = self@.0;
            let mut i: usize = 0;
            while i < tcs.len()
                invariant
                    i <= tcs@.len(),
                    self@.0 == apply_deltas(calls0, tcs@.take(i as int)),
                    self@.1 == old(self)@.1,
                    self@.2 == old(self)@.2,
                    self@.3 == old(self)@.3 || self@.3 == str_of(field(*choice, "finish_reason"@)),
                    str_of(field(*choice, "finish_reason"@)) is Some ==> self@.3 == str_of(field(*choice, "finish_reason"@)),
                    str_of(field(*choice, "finish_reason"@)) is None ==> self@.3 == old(self)@.3,
                decreases tcs@.len() - i,
            {
                assert(tcs@.take(i + 1).drop_last() =~= tcs@.take(i as int));
                self.apply_tool_delta(&tcs[i]);
                i = i + 1;
            }
            assert(tcs@.take(tcs@.len() as int) =~= tcs@);
        }
        if self.finish_reason.is_some() {
            return self.try_complete_tool_calls();
        }
        ParseResult::Continue
    }

    /// The completed call, once a finish reason has been received.
    fn try_complete_tool_calls(&self) -> (r: ParseResult)
        ensures
            r@ == completion(self@.0),
    {
        assert(self@.0.skip(0) =~= self@.0);
        let mut i: usize = 0;
        while i < self.tool_calls.len()
            invariant
                i <= self@.0.len(),
                completion(self@.0) == completion(self@.0.skip(i as int)),
            decreases self@.0.len() - i,
        {
            let p = &self.tool_calls[i];
            assert(self@.0.skip(i as int)[0] == p@);
            assert(self@.0.skip(i as int).drop_first() =~= self@.0.skip(i + 1));
            if !p.function_name.as_str().is_empty() {
                let call_type = if p.call_type.as_str().is_empty() {
                    String::from_str("function")
                } else {
                    p.call_type.clone()
                };
                let tool_call = ToolCall {
                    id: p.id.clone(),
                    call_type,
                    function: FunctionCall {
                        name: p.function_name.clone(),
                        arguments: p.function_arguments.clone(),
                    },
                };
                if same_text(p.function_name.as_str(), FUSION_TOOL_NAME) {
                    if let Some(args) = DeliberateArgs::parse(p.function_arguments.as_str()) {
                        return ParseResult::FusionToolCallComplete(tool_call, args);
                    }
                }
                return ParseResult::OtherToolCallComplete(tool_call);
            }
            i = i + 1;
        }
        ParseResult::Continue
    }

    /// Model names for an early fan-out, read from the arguments assembled so
    /// far for the Fusion tool.
    pub fn try_early_fanout(&self) -> (r: Option<Vec<String>>)
        ensures
            match r {
                Some(v) => early_fanout(self@.0) == Some(names(v@)),
                None => early_fanout(self@.0) is None,
            },
    {
        assert(self@.0.skip(0) =~= self@.0);
        let mut i: usize = 0;
        while i < self.tool_calls.len()
            invariant
                i <= self@.0.len(),
                early_fanout(self@.0) == early_fanout(self@.0.skip(i as int)),
            decreases self@.0.len() - i,
        {
            let p = &self.tool_calls[i];
            assert(self@.0.skip(i as int)[0] == p@);
            assert(self@.0.skip(i as int).drop_first() =~= self@.0.skip(i + 1));
            if same_text(p.function_name.as_str(), FUSION_TOOL_NAME) {
                if let Some(models) = early_models_of(p.function_arguments.as_str()) {
                    return Some(models);
                }
            }
            i = i + 1;
        }
        None
    }

    /// The assembled tool calls (after the stream is done).
    pub fn into_tool_calls(self) -> (r: Vec<ToolCall>)
        ensures
            r@.map_values(|t: ToolCall| t@) == assembled(self@.0),
    {
        let mut out: Vec<ToolCall> = Vec::new();
        let mut i: usize = 0;
        while i < self.tool_calls.len()
            invariant
                i <= self@.0.len(),
                out@.map_values(|t: ToolCall| t@) == assembled(self@.0.take(i as int)),
            decreases self@.0.len() - i,
        {
            let p = &self.tool_calls[i];
            assert(self@.0.take(i + 1).drop_last() =~= self@.0.take(i as int));
            assert(self@.0.take(i + 1).last() == p@);
            if !p.function_name.as_str().is_empty() {
                let call_type = if p.call_type.as_str().is_empty() {
                    String::from_str("function")
                } else {
                    p.call_type.clone()
                };
                let ghost before = out@;
                out.push(
                    ToolCall {
                        id: p.id.clone(),
                        call_type,
                        function: FunctionCall {
                            name: p.function_name.clone(),
                            arguments: p.function_arguments.clone(),
                        },
                    },
                );
                assert(out@.map_values(|t: ToolCall| t@) =~= before.map_values(|t: ToolCall| t@).push(
                    as_call(p@),
                ));
            }
            i = i + 1;
        }
        assert(self@.0.take(self@.0.len() as int) =~= self@.0);
        out
    }
}

/// Model names readable from arguments text (see [`early_models`]).
fn early_models_of(args: &str) -> (r: Option<Vec<String>>)
    ensures
        r is Some ==> early_models(args@) == Some(names(r->0@)),
        r is None ==> early_models(args@) is None,
{
    let ghost fd: Seq<Seq<char>> = match array_of(opt_field(parsed_json(args@), "analysis_models"@)) {
        Some(a) => string_elems(a),
        None => Seq::empty(),
    };
    let doc_opt = parse_json(args);
    match &doc_opt {
        Some(doc) => {
            match as_array(get(doc, "analysis_models")) {
                Some(models) => {
                    let found = string_elements(models);
                    assert(names(found@) == fd);
                    if found.len() > 0 {
                        return Some(found);
                    }
                },
                None => {},
            }
        },
        None => {},
    }
    assert(fd.len() == 0);
    let chars = chars_of(args);
    let open = chars_of("[");
    let close = chars_of("]");
    proof {
        reveal_strlit("[");
        reveal_strlit("]");
    }
    let fs = find(chars.as_slice(), open.as_slice());
    let fe = find(chars.as_slice(), close.as_slice());
    assert(chars@ == args@ && open@ == "["@ && close@ == "]"@);
    match (fs, fe) {
        (Some(start), Some(end)) => {
            assert(first_index(args@, "["@) == Some(start as int));
            assert(first_index(args@, "]"@) == Some(end as int));
            if end > start {
                assert(close@.len() == 1);
                assert(occurs_at(chars@, close@, end as int));
                let n = chars.len();
                assert(end < n);
                let span = crate::text::slice_chars(chars.as_slice(), start, end + 1);
                let span_text = crate::text::string_from_chars(span.as_slice());
                assert(span_text@ == args@.subrange(start as int, end + 1));
                let parsed = parse_json(span_text.as_str());
                match parsed {
                    Some(Json::Array(a)) => {
                        match string_array(&a) {
                            Some(v) => {
                                assert(names(v@) == texts(a@));
                                assert(names(v@).len() == v@.len());
                                if v.len() > 0 {
                                    return Some(v);
                                }
                                return None;
                            },
                            None => {
                                return None;
                            },
                        }
                    },
                    _ => {
                        return None;
                    },
                }
            }
            None
        },
        _ => {
            assert(first_index(args@, "["@) is None || first_index(args@, "]"@) is None);
            None
        },
    }
}

/// The string elements of an array, skipping the others.
fn string_elements(a: &Vec<Json>) -> (r: Vec<String>)
    ensures
        names(r@) == string_elems(a@),
{
    let mut out: Vec<String> = Vec::new();
    let mut i: usize = 0;
    while i < a.len()
        invariant
            i <= a@.len(),
            names(out@) == string_elems(a@.take(i as int)),
        decreases a@.len() - i,
    {
        assert(a@.take(i + 1).drop_last() =~= a@.take(i as int));
        assert(a@.take(i + 1).last() == a@[i as int]);
        if let Json::Str(s) = &a[i] {
            let ghost before = out@;
            out.push(s.clone());
            assert(names(out@) =~= names(before).push(s@));
        }
        i = i + 1;
    }
    assert(a@.take(a@.len() as int) =~= a@);
    out
}

/// `b` starts with `a`.
pub open spec fn extends(a: Seq<char>, b: Seq<char>) -> bool {
    a.len() <= b.len() && b.subrange(0, a.len() as int) == a
}

/// No call slot of `a` is lost in `b`, and each slot's name and arguments
/// in `b` start with those in `a`.
pub open spec fn calls_grow(a: Seq<CallView>, b: Seq<CallView>) -> bool {
    &&& a.len() <= b.len()
    &&& forall|i: int| 0 <= i < a.len() ==> extends(a[i].2, #[trigger] b[i].2) && extends(a[i].3, b[i].3)
}

proof fn lemma_extends_append(a: Seq<char>, x: Seq<char>)
    ensures
        extends(a, a + x),
{
    assert((a + x).subrange(0, a.len() as int) =~= a);
}

proof fn lemma_calls_grow_trans(a: Seq<CallView>, b: Seq<CallView>, c: Seq<CallView>)
    requires
        calls_grow(a, b),
        calls_grow(b, c),
    ensures
        calls_grow(a, c),
{
    assert forall|i: int| 0 <= i < a.len() implies extends(a[i].2, #[trigger] c[i].2) && extends(
        a[i].3,
        c[i].3,
    ) by {
        assert(extends(a[i].2, b[i].2) && extends(b[i].2, c[i].2));
        assert(c[i].2.subrange(0, a[i].2.len() as int) =~= b[i].2.subrange(0, a[i].2.len() as int));
        assert(extends(a[i].3, b[i].3) && extends(b[i].3, c[i].3));
        assert(c[i].3.subrange(0, a[i].3.len() as int) =~= b[i].3.subrange(0, a[i].3.len() as int));
    }
}

proof fn lemma_calls_grow_refl(a: Seq<CallView>)
    ensures
        calls_grow(a, a),
{
    assert forall|i: int| 0 <= i < a.len() implies extends(a[i].2, #[trigger] a[i].2) && extends(
        a[i].3,
        a[i].3,
    ) by {
        assert(a[i].2.subrange(0, a[i].2.len() as int) =~= a[i].2);
        assert(a[i].3.subrange(0, a[i].3.len() as int) =~= a[i].3);
    }
}

proof fn lemma_apply_delta_grows(calls: Seq<CallView>, tc: Json)
    ensures
        calls_grow(calls, apply_delta(calls, tc)),
{
    let idx = delta_index(tc);
    let ext = extend_to(calls, idx + 1);
    let r = apply_delta(calls, tc);
    let f = field(tc, "function"@);
    let old = ext[idx];
    assert(forall|j: int| 0 <= j < calls.len() ==> #[trigger] ext[j] == calls[j]);
    lemma_extends_append(old.2, match str_of(opt_field(f, "name"@)) { Some(x) => x, None => Seq::empty() });
    lemma_extends_append(old.3, match str_of(opt_field(f, "arguments"@)) { Some(x) => x, None => Seq::empty() });
    assert(old.2 + Seq::<char>::empty() =~= old.2);
    assert(old.3 + Seq::<char>::empty() =~= old.3);
    assert forall|i: int| 0 <= i < calls.len() implies extends(calls[i].2, #[trigger] r[i].2) && extends(
        calls[i].3,
        r[i].3,
    ) by {
        if i != idx {
            assert(r[i] == calls[i]);
            assert(calls[i].2.subrange(0, calls[i].2.len() as int) =~= calls[i].2);
            assert(calls[i].3.subrange(0, calls[i].3.len() as int) =~= calls[i].3);
        } else {
            assert(old == calls[i]);
        }
    }
}

proof fn lemma_apply_deltas_grows(calls: Seq<CallView>, tcs: Seq<Json>)
    ensures
        calls_grow(calls, apply_deltas(calls, tcs)),
    decreases tcs.len(),
{
    if tcs.len() == 0 {
        lemma_calls_grow_refl(calls);
    } else {
        lemma_apply_deltas_grows(calls, tcs.drop_last());
        let mid = apply_deltas(calls, tcs.drop_last());
        lemma_apply_delta_grows(mid, tcs.last());
        lemma_calls_grow_trans(calls, mid, apply_delta(mid, tcs.last()));
    }
}

/// Feeding the accumulator only ever adds: the text gathered so far stays
/// as the start of the text, a finished stream stays finished, no call
/// slot is lost and each call's name and arguments only grow at their
/// end. The `[DONE]` marker finishes the stream and changes nothing else.
pub proof fn law_feed_only_adds(st: AccView, data: Seq<char>)
    ensures
        extends(st.1, feed(st, data).0.1),
        st.2 ==> feed(st, data).0.2,
        calls_grow(st.0, feed(st, data).0.0),
        trim(data) == "[DONE]"@ ==> feed(st, data) == ((st.0, st.1, true, st.3), Outcome::Done),
{
    lemma_calls_grow_refl(st.0);
    assert(st.1.subrange(0, st.1.len() as int) =~= st.1);
    let t = trim(data);
    if t != "[DONE]"@ {
        if let Some(doc) = parsed_json(t) {
            if let Some(choice) = first_of(field(doc, "choices"@)) {
                if let Some(delta) = field(choice, "delta"@) {
                    match str_of(field(delta, "content"@)) {
                        Some(c) => {
                            lemma_extends_append(st.1, c);
                        },
                        None => {
                            if let Some(tcs) = array_of(field(delta, "tool_calls"@)) {
                                lemma_apply_deltas_grows(st.0, tcs);
                            }
                        },
                    }
                }
            }
        }
    }
}

/// Early fan-out reads a complete model list out of arguments that are
/// still incomplete JSON: when the arguments text does not parse, but the
/// span from its first `[` to its first `]` (which comes later) parses as a
/// non-empty array of strings, the early models are exactly those strings,
/// in order, and a call list led by a Fusion-tool slot with these arguments
/// fans out to them.
pub proof fn law_partial_arguments_fan_out(args: Seq<char>, s: int, e: int, a: Vec<Json>, calls: Seq<CallView>)
    requires
        parsed_json(args) is None,
        0 <= s < e < args.len(),
        args[s] == '[',
        forall|j: int| 0 <= j < s ==> args[j] != '[',
        args[e] == ']',
        forall|j: int| 0 <= j < e ==> args[j] != ']',
        parsed_json(args.subrange(s, e + 1)) == Some(Json::Array(a)),
        a@.len() > 0,
        forall|i: int| 0 <= i < a@.len() ==> a@[i] is Str,
    ensures
        early_models(args) is Some,
        early_models(args)->0.len() == a@.len(),
        forall|i: int| 0 <= i < a@.len() ==> (a@[i] matches Json::Str(t) && t@ == #[trigger] early_models(
            args,
        )->0[i]),
        calls.len() > 0 && calls[0].2 == FUSION_TOOL_NAME@ && calls[0].3 == args ==> early_fanout(calls)
            == early_models(args),
{
    reveal_strlit("[");
    reveal_strlit("]");
    assert("["@ =~= seq!['[']);
    assert("]"@ =~= seq![']']);
    crate::text::lemma_first_char_index(args, '[', s);
    crate::text::lemma_first_char_index(args, ']', e);
    assert(all_strings(a@));
    let r = texts(a@);
    assert forall|i: int| 0 <= i < a@.len() implies (a@[i] matches Json::Str(t) && t@ == #[trigger] r[i]) by {}
}

} // verus!
