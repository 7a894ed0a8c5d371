//! The query refiner: enriches the original prompt to encourage deeper,
//! more dialectical reasoning from the panel models.

use vstd::prelude::*;
use super::{HarnessError, PipelineContext, clone_messages, msg_views};
use crate::text::{concat, owned};
use crate::types::{Message, MessageView, opt_str};

verus! {

broadcast use vstd::string::group_string_axioms;

/// The query refiner stage.
pub struct QueryRefiner;

/// The note appended to the last user message.
pub open spec fn refiner_suffix() -> Seq<char> {
    "\n\n[System Note: Please approach this from multiple perspectives. Think critically, identify your key assumptions, and explicitly state which parts you are least confident about. Consider edge cases and potential counterarguments.]"@
}

/// The content text of a message view, empty when it has none.
pub open spec fn view_text(m: MessageView) -> Seq<char> {
    match m.content {
        Some(c) => c,
        None => Seq::empty(),
    }
}

/// The refined conversation: the last message, when it is the user's,
/// gets the refiner note appended to its content.
pub open spec fn refined(msgs: Seq<MessageView>) -> Seq<MessageView> {
    if msgs.len() > 0 && msgs.last().role == "user"@ {
        msgs.update(
            msgs.len() - 1,
            (MessageView { content: Some(view_text(msgs.last()) + refiner_suffix()), ..msgs.last() }),
        )
    } else {
        msgs
    }
}

impl QueryRefiner {
    /// The stage's name.
    pub fn name(&self) -> (r: &'static str)
        ensures
            r@ == "QueryRefiner"@,
    {
        "QueryRefiner"
    }

    /// Refines the original messages of the context into its refined
    /// messages; fails, changing nothing, when there are none.
    pub fn refine(&self, ctx: &mut PipelineContext) -> (r: Result<(), HarnessError>)
        ensures
            old(ctx).original_messages@.len() == 0 ==> (r matches Err(HarnessError::ExecutionFailed(m))
                && m@ == "No messages to refine"@ && *final(ctx) == *old(ctx)),
            old(ctx).original_messages@.len() > 0 ==> (r is Ok && msg_views(final(ctx).refined_messages@)
                == refined(msg_views(old(ctx).original_messages@)) && (PipelineContext {
                refined_messages: old(ctx).refined_messages,
                ..*final(ctx)
            }) == *old(ctx)),
    {
        if ctx.original_messages.len() == 0 {
            return Err(HarnessError::ExecutionFailed(owned("No messages to refine")));
        }
        let mut refined_msgs = clone_messages(ctx.original_messages.as_slice());
        let n = refined_msgs.len();
        assert(msg_views(refined_msgs@).len() == msg_views(ctx.original_messages@).len());
        let ghost views = msg_views(refined_msgs@);
        if crate::json::same_text(refined_msgs[n - 1].role.as_str(), "user") {
            let mut last = refined_msgs.pop().unwrap();
            let text = concat(last.content_str(), "\n\n[System Note: Please approach this from multiple perspectives. Think critically, identify your key assumptions, and explicitly state which parts you are least confident about. Consider edge cases and potential counterarguments.]");
            last.content = Some(text);
            let ghost before = refined_msgs@;
            refined_msgs.push(last);
            proof {
                assert(msg_views(refined_msgs@) =~= refined(views));
            }
        }
        ctx.refined_messages = refined_msgs;
        Ok(())
    }
}

} // verus!
