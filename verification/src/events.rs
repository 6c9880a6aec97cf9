//! What a client is told of a request while it is running.

use vstd::prelude::*;

verus! {

/// The phase an in-flight LLM request is in. Reported so a client can show a
/// status indicator that reflects the request rather than inferring it.
#[derive(Debug, Clone, Copy, PartialEq, Eq, Structural)]
pub enum LlmStage {
    /// The request was sent and the model has not started streaming yet
    /// (time-to-first-token). Nothing is written to the output during this
    /// stage, so it needs a client-side indicator.
    Prefilling,
    /// The model is sending a tool call, of which nothing is shown until it is
    /// complete.
    ToolCallReceiving,
    /// The conversation is being summarized to make room in the context.
    RewritingContext,
}

} // verus!
