//! Sequential state sniffing: decides from the message history whether a
//! request belongs to the diagnostic phase or the execution phase.

use vstd::prelude::*;
use crate::text::{has_substring, lowercase, str_contains, to_lowercase};
use crate::config::{default_keywords, default_error_keywords};
use crate::types::strs;

verus! {

broadcast use vstd::string::group_string_axioms;

/// Request state detected by inspecting message history.
#[derive(Debug, Clone, Copy, PartialEq, Eq, Structural)]
pub enum RequestState {
    /// Early conversation or error context: route to the diagnostic panel.
    Diagnostic,
    /// Execution phase: route to the executor.
    Execution,
}

/// A single message of a conversation, as the sniffer reads it.
#[derive(Debug)]
pub struct Message {
    pub role: String,
    pub content: String,
}

impl Clone for Message {
    fn clone(&self) -> (r: Self)
        ensures
            r == *self,
    {
        Message { role: self.role.clone(), content: self.content.clone() }
    }
}

/// The contents of the messages, in order.
pub open spec fn contents(msgs: Seq<Message>) -> Seq<Seq<char>> {
    msgs.map_values(|m: Message| m.content@)
}

/// Some text mentions the end of a final plan.
pub open spec fn mentions_final_plan(texts: Seq<Seq<char>>) -> bool {
    exists|i: int| 0 <= i < texts.len() && has_substring(#[trigger] texts[i], "</final_plan>"@)
}

/// `text` contains the lower-cased form of one of `kws`.
pub open spec fn has_lowered_keyword(text: Seq<char>, kws: Seq<Seq<char>>) -> bool {
    exists|k: int| 0 <= k < kws.len() && has_substring(text, lowercase(#[trigger] kws[k]))
}

/// `text` contains one of `kws` as written.
pub open spec fn has_keyword(text: Seq<char>, kws: Seq<Seq<char>>) -> bool {
    exists|k: int| 0 <= k < kws.len() && has_substring(text, #[trigger] kws[k])
}

/// The state of a conversation, given the texts of its messages:
/// Diagnostic when it is empty; Execution when some message contains
/// `</final_plan>`; Diagnostic when the lower-cased last message contains a
/// caller keyword (lower-cased) or a built-in one; Execution otherwise.
pub open spec fn sniff_texts(texts: Seq<Seq<char>>, kws: Seq<Seq<char>>) -> RequestState {
    if texts.len() == 0 {
        RequestState::Diagnostic
    } else if mentions_final_plan(texts) {
        RequestState::Execution
    } else {
        let lower = lowercase(texts.last());
        if has_lowered_keyword(lower, kws) || has_keyword(lower, default_keywords()) {
            RequestState::Diagnostic
        } else {
            RequestState::Execution
        }
    }
}

/// The state of a conversation (see [`sniff_texts`]).
pub open spec fn sniff(msgs: Seq<Message>, kws: Seq<Seq<char>>) -> RequestState {
    sniff_texts(contents(msgs), kws)
}

/// Inspects the messages of a chat completion request, with the built-in
/// error keywords only.
pub fn sniff_state(messages: &[Message]) -> (r: RequestState)
    ensures
        r == sniff(messages@, Seq::empty()),
{
    let none: Vec<String> = Vec::new();
    let r = sniff_state_with_keywords(messages, none.as_slice());
    assert(strs(none@) =~= Seq::<Seq<char>>::empty());
    r
}

/// Inspects messages using caller-provided error keywords (from config).
pub fn sniff_state_with_keywords(messages: &[Message], error_keywords: &[String]) -> (r: RequestState)
    ensures
        r == sniff(messages@, strs(error_keywords@)),
{
    if messages.len() == 0 {
        return RequestState::Diagnostic;
    }
    let mut i: usize = 0;
    while i < messages.len()
        invariant
            i <= messages@.len(),
            forall|j: int| 0 <= j < i ==> !has_substring(messages@[j].content@, "</final_plan>"@),
        decreases messages@.len() - i,
    {
        if str_contains(messages[i].content.as_str(), "</final_plan>") {
            assert(contents(messages@)[i as int] == messages@[i as int].content@);
            return RequestState::Execution;
        }
        i = i + 1;
    }
    assert(!mentions_final_plan(contents(messages@))) by {
        assert forall|j: int| 0 <= j < contents(messages@).len() implies !has_substring(
            #[trigger] contents(messages@)[j],
            "</final_plan>"@,
        ) by {
            assert(contents(messages@)[j] == messages@[j].content@);
        }
    }
    let last = &messages[messages.len() - 1];
    let lower = to_lowercase(last.content.as_str());
    let mut k: usize = 0;
    while k < error_keywords.len()
        invariant
            k <= error_keywords@.len(),
            lower@ == lowercase(messages@.last().content@),
            messages@.len() > 0,
            !mentions_final_plan(contents(messages@)),
            forall|j: int| 0 <= j < k ==> !has_substring(lower@, lowercase(#[trigger] strs(error_keywords@)[j])),
        decreases error_keywords@.len() - k,
    {
        let kw = to_lowercase(error_keywords[k].as_str());
        if str_contains(lower.as_str(), kw.as_str()) {
            assert(strs(error_keywords@)[k as int] == error_keywords@[k as int]@);
            assert(has_substring(lower@, lowercase(strs(error_keywords@)[k as int])));
            assert(has_lowered_keyword(lower@, strs(error_keywords@)));
            return RequestState::Diagnostic;
        }
        k = k + 1;
    }
    let defaults = default_error_keywords();
    let mut d: usize = 0;
    while d < defaults.len()
        invariant
            d <= defaults@.len(),
            strs(defaults@) == default_keywords(),
            lower@ == lowercase(messages@.last().content@),
            messages@.len() > 0,
            !mentions_final_plan(contents(messages@)),
            !has_lowered_keyword(lower@, strs(error_keywords@)),
            forall|j: int| 0 <= j < d ==> !has_substring(lower@, #[trigger] strs(defaults@)[j]),
        decreases defaults@.len() - d,
    {
        if str_contains(lower.as_str(), defaults[d].as_str()) {
            assert(strs(defaults@)[d as int] == defaults@[d as int]@);
            assert(has_substring(lower@, strs(defaults@)[d as int]));
            assert(has_keyword(lower@, default_keywords()));
            return RequestState::Diagnostic;
        }
        d = d + 1;
    }
    RequestState::Execution
}

/// A final plan settles the state: once any message contains
/// `</final_plan>`, the conversation is in the execution phase, whatever the
/// keywords.
pub proof fn law_final_plan_decides(texts: Seq<Seq<char>>, kws: Seq<Seq<char>>)
    requires
        mentions_final_plan(texts),
    ensures
        sniff_texts(texts, kws) == RequestState::Execution,
{
}

/// The built-in error keywords always apply: whatever keywords the caller
/// passes, a conversation with no final plan whose lower-cased last message
/// contains a built-in keyword is in the diagnostic phase.
pub proof fn law_builtin_keywords_always_apply(msgs: Seq<Message>, kws: Seq<Seq<char>>, k: int)
    requires
        msgs.len() > 0,
        !mentions_final_plan(contents(msgs)),
        0 <= k < default_keywords().len(),
        has_substring(lowercase(msgs.last().content@), default_keywords()[k]),
    ensures
        sniff(msgs, kws) == RequestState::Diagnostic,
{
    assert(contents(msgs).last() == msgs.last().content@);
    assert(has_keyword(lowercase(contents(msgs).last()), default_keywords()));
}

/// Caller keywords only add diagnostic cases: a conversation that is
/// diagnostic with some keywords stays diagnostic when more are passed, and
/// one that is diagnostic with none is diagnostic with any.
pub proof fn law_keywords_only_add_diagnosis(msgs: Seq<Message>, kws: Seq<Seq<char>>, extra: Seq<Seq<char>>)
    ensures
        sniff(msgs, kws) == RequestState::Diagnostic ==> sniff(msgs, kws + extra) == RequestState::Diagnostic,
        sniff(msgs, Seq::empty()) == RequestState::Diagnostic ==> sniff(msgs, kws) == RequestState::Diagnostic,
{
    let t = contents(msgs);
    if t.len() > 0 && !mentions_final_plan(t) {
        let lower = lowercase(t.last());
        if has_lowered_keyword(lower, kws) {
            let j = choose|j: int| 0 <= j < kws.len() && has_substring(lower, lowercase(#[trigger] kws[j]));
            assert((kws + extra)[j] == kws[j]);
            assert(has_lowered_keyword(lower, kws + extra));
        }
        if has_lowered_keyword(lower, Seq::<Seq<char>>::empty()) {
            let j = choose|j: int| 0 <= j < Seq::<Seq<char>>::empty().len() && has_substring(
                lower,
                lowercase(#[trigger] Seq::<Seq<char>>::empty()[j]),
            );
        }
    }
}

} // verus!
