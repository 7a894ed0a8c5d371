//! Wire-level data types of the OpenAI-compatible chat API and of the
//! Fusion deliberation pipeline.

use vstd::prelude::*;
use crate::json::{Json, field, str_of, array_of};

verus! {

broadcast use vstd::string::group_string_axioms;

/// Views of a list of strings.
pub open spec fn strs(v: Seq<String>) -> Seq<Seq<char>> {
    v.map_values(|s: String| s@)
}

/// View of an optional string.
pub open spec fn opt_str(o: Option<String>) -> Option<Seq<char>> {
    match o {
        Some(s) => Some(s@),
        None => None,
    }
}

/// A single message in a chat completion request (OpenAI-compatible),
/// extended with `tool_calls` and `tool_call_id` for the Fusion pipeline's
/// tool-calling orchestration.
#[derive(Debug)]
pub struct Message {
    pub role: String,
    pub content: Option<String>,
    pub name: Option<String>,
    pub tool_calls: Option<Vec<ToolCall>>,
    pub tool_call_id: Option<String>,
}

/// What a message holds, as plain values.
pub struct MessageView {
    pub role: Seq<char>,
    pub content: Option<Seq<char>>,
    pub name: Option<Seq<char>>,
    pub tool_calls: Option<Seq<ToolCall>>,
    pub tool_call_id: Option<Seq<char>>,
}

impl View for Message {
    type V = MessageView;

    open spec fn view(&self) -> MessageView {
        MessageView {
            role: self.role@,
            content: opt_str(self.content),
            name: opt_str(self.name),
            tool_calls: match self.tool_calls {
                Some(v) => Some(v@),
                None => None,
            },
            tool_call_id: opt_str(self.tool_call_id),
        }
    }
}

impl Clone for Message {
    fn clone(&self) -> (r: Self)
        ensures
            r@ == self@,
    {
        let tool_calls = match &self.tool_calls {
            Some(v) => {
                let mut out: Vec<ToolCall> = Vec::new();
                let mut i: usize = 0;
                while i < v.len()
                    invariant
                        i <= v@.len(),
                        out@ == v@.take(i as int),
                    decreases v@.len() - i,
                {
                    out.push(v[i].clone());
                    i = i + 1;
                    assert(out@ =~= v@.take(i as int));
                }
                assert(v@.take(v@.len() as int) =~= v@);
                Some(out)
            },
            None => None,
        };
        Message {
            role: self.role.clone(),
            content: clone_opt(&self.content),
            name: clone_opt(&self.name),
            tool_calls,
            tool_call_id: clone_opt(&self.tool_call_id),
        }
    }
}

/// The text of a message's content, empty when it has none.
pub open spec fn content_of(m: Message) -> Seq<char> {
    match m.content {
        Some(s) => s@,
        None => Seq::empty(),
    }
}

/// A plain message: only role and content are set.
pub open spec fn is_plain(m: Message, role: Seq<char>, content: Seq<char>) -> bool {
    &&& m.role@ == role
    &&& m.content matches Some(c) && c@ == content
    &&& m.name is None
    &&& m.tool_calls is None
    &&& m.tool_call_id is None
}

impl Message {
    /// A user message with the given content.
    pub fn user(content: &str) -> (r: Self)
        ensures
            is_plain(r, "user"@, content@),
    {
        Self {
            role: crate::text::owned("user"),
            content: Some(crate::text::owned(content)),
            name: None,
            tool_calls: None,
            tool_call_id: None,
        }
    }

    /// An assistant message with the given content.
    pub fn assistant(content: &str) -> (r: Self)
        ensures
            is_plain(r, "assistant"@, content@),
    {
        Self {
            role: crate::text::owned("assistant"),
            content: Some(crate::text::owned(content)),
            name: None,
            tool_calls: None,
            tool_call_id: None,
        }
    }

    /// A system message with the given content.
    pub fn system(content: &str) -> (r: Self)
        ensures
            is_plain(r, "system"@, content@),
    {
        Self {
            role: crate::text::owned("system"),
            content: Some(crate::text::owned(content)),
            name: None,
            tool_calls: None,
            tool_call_id: None,
        }
    }

    /// A tool-result message answering the tool call `tool_call_id`.
    pub fn tool(tool_call_id: &str, content: &str) -> (r: Self)
        ensures
            r.role@ == "tool"@,
            r.content matches Some(c) && c@ == content@,
            r.name is None,
            r.tool_calls is None,
            r.tool_call_id matches Some(t) && t@ == tool_call_id@,
    {
        Self {
            role: crate::text::owned("tool"),
            content: Some(crate::text::owned(content)),
            name: None,
            tool_calls: None,
            tool_call_id: Some(crate::text::owned(tool_call_id)),
        }
    }

    /// The content as text, `""` when there is none.
    pub fn content_str(&self) -> (r: &str)
        ensures
            r@ == content_of(*self),
    {
        match &self.content {
            Some(s) => s.as_str(),
            None => {
                proof {
                    reveal_strlit("");
                }
                ""
            },
        }
    }
}

/// A tool call emitted by the model in an assistant message.
#[derive(Debug)]
pub struct ToolCall {
    pub id: String,
    pub call_type: String,
    pub function: FunctionCall,
}

impl Clone for ToolCall {
    fn clone(&self) -> (r: Self)
        ensures
            r == *self,
    {
        ToolCall { id: self.id.clone(), call_type: self.call_type.clone(), function: self.function.clone() }
    }
}

/// The function name and arguments within a tool call.
#[derive(Debug)]
pub struct FunctionCall {
    pub name: String,
    pub arguments: String,
}

impl Clone for FunctionCall {
    fn clone(&self) -> (r: Self)
        ensures
            r == *self,
    {
        FunctionCall { name: self.name.clone(), arguments: self.arguments.clone() }
    }
}

/// Arguments for the `tinyfusion_deliberate` tool call.
#[derive(Debug, Clone)]
pub struct DeliberateArgs {
    pub analysis_models: Vec<String>,
    pub judge_model: Option<String>,
}

impl View for DeliberateArgs {
    type V = (Seq<Seq<char>>, Option<Seq<char>>);

    open spec fn view(&self) -> (Seq<Seq<char>>, Option<Seq<char>>) {
        (strs(self.analysis_models@), opt_str(self.judge_model))
    }
}

/// Every element is a string.
pub open spec fn all_strings(a: Seq<Json>) -> bool {
    forall|i: int| 0 <= i < a.len() ==> a[i] is Str
}

/// The texts of an array whose elements are strings.
pub open spec fn texts(a: Seq<Json>) -> Seq<Seq<char>> {
    a.map_values(|x: Json| match x { Json::Str(s) => s@, _ => Seq::empty() })
}

/// A judge model given as an optional string: absent or null means none.
pub open spec fn judge_of(j: Option<Json>) -> Option<Option<Seq<char>>> {
    match j {
        None => Some(None),
        Some(Json::Null) => Some(None),
        Some(Json::Str(s)) => Some(Some(s@)),
        Some(_) => None,
    }
}

/// The arguments a JSON document denotes, read as serde reads the
/// `DeliberateArgs` struct: an object whose `analysis_models` is an array of
/// strings and whose optional `judge_model` is a string or null (other
/// members ignored), or the same two fields in order as an array of one or
/// two elements.
pub open spec fn deliberate_args_of(j: Json) -> Option<(Seq<Seq<char>>, Option<Seq<char>>)> {
    match j {
        Json::Array(items) => if items@.len() == 0 || items@.len() > 2 {
            None
        } else {
            match items@[0] {
                Json::Array(models) => if !all_strings(models@) {
                    None
                } else {
                    match judge_of(if items@.len() == 2 { Some(items@[1]) } else { None }) {
                        Some(judge) => Some((texts(models@), judge)),
                        None => None,
                    }
                },
                _ => None,
            }
        },
        _ => deliberate_args_of_object(j),
    }
}

/// The object form of the arguments.
pub open spec fn deliberate_args_of_object(j: Json) -> Option<(Seq<Seq<char>>, Option<Seq<char>>)> {
    match array_of(field(j, "analysis_models"@)) {
        Some(models) => if !all_strings(models) {
            None
        } else {
            match field(j, "judge_model"@) {
                None => Some((texts(models), None)),
                Some(Json::Null) => Some((texts(models), None)),
                Some(Json::Str(s)) => Some((texts(models), Some(s@))),
                Some(_) => None,
            }
        },
        None => None,
    }
}

/// The arguments a JSON text denotes (serde's `from_str::<DeliberateArgs>`).
pub open spec fn deliberate_args_text(text: Seq<char>) -> Option<(Seq<Seq<char>>, Option<Seq<char>>)> {
    match crate::json::parsed_json(text) {
        Some(j) => deliberate_args_of(j),
        None => None,
    }
}

/// The texts of an array of strings, or `None` when some element is not a string.
pub fn string_array(a: &Vec<Json>) -> (r: Option<Vec<String>>)
    ensures
        match r {
            Some(v) => all_strings(a@) && strs(v@) == texts(a@),
            None => !all_strings(a@),
        },
{
    let mut out: Vec<String> = Vec::new();
    let mut i: usize = 0;
    while i < a.len()
        invariant
            i <= a@.len(),
            all_strings(a@.take(i as int)),
            strs(out@) == texts(a@.take(i as int)),
        decreases a@.len() - i,
    {
        let ghost old_out = out@;
        match &a[i] {
            Json::Str(s) => {
                let c = s.clone();
                out.push(c);
                assert(strs(out@) =~= strs(old_out).push(s@));
                assert(texts(a@.take(i + 1)) =~= texts(a@.take(i as int)).push(s@));
            },
            _ => {
                assert(!(a@[i as int] is Str));
                return None;
            },
        }
        i = i + 1;
    }
    assert(a@.take(a@.len() as int) =~= a@);
    Some(out)
}

impl DeliberateArgs {
    /// Reads the arguments from a parsed JSON document.
    pub fn from_json(j: &Json) -> (r: Option<DeliberateArgs>)
        ensures
            match r {
                Some(a) => deliberate_args_of(*j) == Some(a@),
                None => deliberate_args_of(*j) is None,
            },
    {
        if let Json::Array(items) = j {
            if items.len() == 0 || items.len() > 2 {
                return None;
            }
            let names = match &items[0] {
                Json::Array(models) => match string_array(models) {
                    Some(v) => v,
                    None => return None,
                },
                _ => return None,
            };
            if items.len() == 1 {
                return Some(DeliberateArgs { analysis_models: names, judge_model: None });
            }
            return match &items[1] {
                Json::Null => Some(DeliberateArgs { analysis_models: names, judge_model: None }),
                Json::Str(s) => Some(DeliberateArgs { analysis_models: names, judge_model: Some(s.clone()) }),
                _ => None,
            };
        }
        let models = match crate::json::as_array(crate::json::get(j, "analysis_models")) {
            Some(a) => a,
            None => return None,
        };
        let names = match string_array(models) {
            Some(v) => v,
            None => return None,
        };
        match crate::json::get(j, "judge_model") {
            None => Some(DeliberateArgs { analysis_models: names, judge_model: None }),
            Some(Json::Null) => Some(DeliberateArgs { analysis_models: names, judge_model: None }),
            Some(Json::Str(s)) => Some(
                DeliberateArgs { analysis_models: names, judge_model: Some(s.clone()) },
            ),
            Some(_) => None,
        }
    }

    /// Parses the arguments from JSON text.
    pub fn parse(text: &str) -> (r: Option<DeliberateArgs>)
        ensures
            match r {
                Some(a) => deliberate_args_text(text@) == Some(a@),
                None => deliberate_args_text(text@) is None,
            },
    {
        match crate::json::parse_json(text) {
            Some(j) => DeliberateArgs::from_json(&j),
            None => None,
        }
    }
}

/// Lower-case form of an ASCII letter; other characters unchanged.
pub open spec fn ascii_lower(c: char) -> char {
    if 'A' <= c && c <= 'Z' {
        (((c as u8) + 32) as u8) as char
    } else {
        c
    }
}

/// `a` and `b` are equal ignoring ASCII case (std's `eq_ignore_ascii_case`).
pub open spec fn eq_ignore_ascii_case(a: Seq<char>, b: Seq<char>) -> bool {
    a.len() == b.len() && forall|i: int| 0 <= i < a.len() ==> ascii_lower(a[i]) == ascii_lower(b[i])
}

fn to_ascii_lower(c: char) -> (r: char)
    ensures
        r == ascii_lower(c),
{
    if 'A' <= c && c <= 'Z' {
        ((c as u8) + 32) as char
    } else {
        c
    }
}

/// Compares two strings ignoring ASCII case.
pub fn ascii_eq_ignore_case(a: &str, b: &str) -> (r: bool)
    ensures
        r == eq_ignore_ascii_case(a@, b@),
{
    let x = crate::text::chars_of(a);
    let y = crate::text::chars_of(b);
    if x.len() != y.len() {
        return false;
    }
    let mut i: usize = 0;
    while i < x.len()
        invariant
            x@.len() == y@.len(),
            x@ == a@,
            y@ == b@,
            i <= x@.len(),
            forall|k: int| 0 <= k < i ==> ascii_lower(x@[k]) == ascii_lower(y@[k]),
        decreases x@.len() - i,
    {
        if to_ascii_lower(x[i]) != to_ascii_lower(y[i]) {
            return false;
        }
        i = i + 1;
    }
    true
}

/// Depth guard extracted from a request. When `is_subrequest` is true the
/// request is an internal sub-call and must be forced into the single-model
/// passthrough path to prevent recursion.
#[derive(Debug, Clone, Copy)]
pub struct FusionGuard {
    pub is_subrequest: bool,
}

/// Name of the request header that marks a sub-request.
pub const SUBREQUEST_HEADER: &'static str = "x-tinyfusion-subrequest";

/// The header an outgoing internal request carries so that the receiving
/// gateway treats it as a sub-request: `x-tinyfusion-subrequest: 1`.
pub open spec fn is_subrequest_marker(h: (String, String)) -> bool {
    h.0@ == "x-tinyfusion-subrequest"@ && h.1@ == "1"@
}

/// The sub-request marker header, as a name and a value.
pub fn subrequest_marker() -> (r: (String, String))
    ensures
        is_subrequest_marker(r),
{
    (crate::text::owned("x-tinyfusion-subrequest"), crate::text::owned("1"))
}

/// A sub-request is marked by the header value `1` or `true` (any ASCII case).
pub open spec fn marks_subrequest(v: Option<Seq<char>>) -> bool {
    match v {
        Some(s) => s == "1"@ || eq_ignore_ascii_case(s, "true"@),
        None => false,
    }
}

impl FusionGuard {
    /// The guard for a request whose sub-request header holds `value`
    /// (`None` when the header is absent or not visible ASCII).
    pub fn from_header_value(value: Option<&str>) -> (r: FusionGuard)
        ensures
            r.is_subrequest == marks_subrequest(
                match value {
                    Some(s) => Some(s@),
                    None => None,
                },
            ),
    {
        match value {
            Some(v) => {
                let one = crate::json::same_text(v, "1");
                let t = ascii_eq_ignore_case(v, "true");
                FusionGuard { is_subrequest: one || t }
            },
            None => FusionGuard { is_subrequest: false },
        }
    }
}

/// Model alias that selects the Fusion deliberation pipeline.
pub const FUSION_MODEL_ALIAS: &'static str = "tinyfusion/fusion";

/// Tool name used for the Fusion deliberation pipeline.
pub const FUSION_TOOL_NAME: &'static str = "tinyfusion_deliberate";

/// Structured analysis output from the Judge model.
#[derive(Debug, Clone, Default)]
pub struct StructuredAnalysis {
    pub consensus: Vec<String>,
    pub contradictions: Vec<Contradiction>,
    pub partial_coverage: Vec<PartialCoverage>,
    pub unique_insights: Vec<UniqueInsight>,
    pub blind_spots: Vec<String>,
}

#[derive(Debug, Clone)]
pub struct Contradiction {
    pub topic: String,
    pub stances: Vec<Stance>,
}

#[derive(Debug, Clone)]
pub struct Stance {
    pub model: String,
    pub stance: String,
}

#[derive(Debug, Clone)]
pub struct PartialCoverage {
    pub models: Vec<String>,
    pub point: String,
}

#[derive(Debug, Clone)]
pub struct UniqueInsight {
    pub model: String,
    pub insight: String,
}

/// A single panel model's response.
#[derive(Debug)]
pub struct PanelResponse {
    pub model_name: String,
    pub content: Result<String, String>,
    pub latency_ms: u64,
    pub token_count: Option<u64>,
}

impl Clone for PanelResponse {
    fn clone(&self) -> (r: Self)
        ensures
            r == *self,
    {
        PanelResponse {
            model_name: self.model_name.clone(),
            content: match &self.content {
                Ok(s) => Ok(s.clone()),
                Err(e) => Err(e.clone()),
            },
            latency_ms: self.latency_ms,
            token_count: self.token_count,
        }
    }
}

/// Pipeline metrics for a single request lifecycle.
#[derive(Debug, Clone)]
pub struct RequestMetrics {
    pub request_id: String,
    pub timestamp: u64,
    pub request_type: String,
    pub total_latency_ms: u64,
    pub outer_model: String,
    pub panel_models: Vec<String>,
    pub judge_model: String,
    pub panel_latencies_ms: Vec<u64>,
    pub judge_latency_ms: u64,
    pub refiner_latency_ms: u64,
    pub consensus_count: usize,
    pub contradiction_count: usize,
    pub blind_spot_count: usize,
    pub panel_success_count: usize,
    pub panel_failure_count: usize,
}

} // verus!

verus! {

/// A copy of a list of strings.
pub fn clone_strings(v: &[String]) -> (r: Vec<String>)
    ensures
        r@ == v@,
{
    let mut out: Vec<String> = Vec::new();
    let mut i: usize = 0;
    while i < v.len()
        invariant
            i <= v@.len(),
            out@ == v@.take(i as int),
        decreases v@.len() - i,
    {
        out.push(v[i].clone());
        i = i + 1;
        assert(out@ =~= v@.take(i as int));
    }
    assert(v@.take(v@.len() as int) =~= v@);
    out
}

/// A copy of an optional string.
pub fn clone_opt(o: &Option<String>) -> (r: Option<String>)
    ensures
        r == *o,
{
    match o {
        Some(s) => Some(s.clone()),
        None => None,
    }
}

} // verus!
