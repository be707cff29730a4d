//! Language models that can be asked.

use crate::error::{viewed, ErrorView, Result};
use crate::llm::{LlmRequest, LlmResponse, RequestView, ResponseView};
use vstd::prelude::*;

verus! {

/// A language-model completion backend. Implementations talk to a real API or
/// return canned responses ([`crate::MockProvider`] for tests).
///
/// The runtime wraps every call through a provider in a journal cache, so
/// providers themselves are free to be stateless and non-deterministic: the
/// caching happens one layer above, and what an answer may be is left to each
/// of them.
pub trait LlmProvider {
    /// Whether this provider, asked this, can give this reply and become
    /// `after`.
    spec fn gives(
        &self,
        request: RequestView,
        after: &Self,
        reply: std::result::Result<ResponseView, ErrorView>,
    ) -> bool;

    /// Asks the model.
    fn complete(&mut self, request: &LlmRequest) -> (outcome: Result<LlmResponse>)
        ensures
            old(self).gives(request@, final(self), viewed(outcome)),
    ;
}

} // verus!
