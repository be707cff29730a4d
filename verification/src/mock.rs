//! A language model for tests.

use crate::error::{Error, ErrorView, Result};
use crate::llm::{LlmRequest, LlmResponse, RequestView, ResponseView};
use crate::provider::LlmProvider;
use vstd::prelude::*;

verus! {

/// A queue-backed fake provider for tests. Returns canned responses in order;
/// tracks how many times `complete` was invoked (so tests can assert that the
/// journal cache actually short-circuits).
///
/// If the queue is exhausted, `complete` returns
/// `Error::Tool("mock provider exhausted")`.
#[derive(Debug)]
pub struct MockProvider {
    /// The responses that are left, the next one last.
    queue: Vec<LlmResponse>,
    calls: u32,
}

/// What a [`MockProvider`] holds.
pub struct MockView {
    /// The responses that are left, the next one first.
    pub queue: Seq<ResponseView>,
    pub calls: u32,
}

/// What a list of responses holds.
pub open spec fn responses_view(responses: Seq<LlmResponse>) -> Seq<ResponseView> {
    responses.map_values(|r: LlmResponse| r@)
}

impl View for MockProvider {
    type V = MockView;

    closed spec fn view(&self) -> MockView {
        MockView { queue: responses_view(self.queue@.reverse()), calls: self.calls }
    }
}

impl MockProvider {
    pub fn new(responses: Vec<LlmResponse>) -> (provider: Self)
        ensures
            provider@ == (MockView { queue: responses_view(responses@), calls: 0 }),
    {
        let ghost all = responses@;
        let mut responses = responses;
        let mut queue: Vec<LlmResponse> = Vec::new();
        while responses.len() > 0
            invariant
                responses@.len() + queue@.len() == all.len(),
                responses@ =~= all.take(responses@.len() as int),
                forall|k: int|
                    0 <= k < queue@.len() ==> #[trigger] queue@[k] == all[all.len() - 1 - k],
            decreases responses@.len(),
        {
            if let Some(last) = responses.pop() {
                queue.push(last);
            }
        }
        assert(queue@.reverse() =~= all);
        MockProvider { queue, calls: 0 }
    }

    /// How many times `complete` was invoked. The count starts over after the
    /// highest 32-bit number.
    pub fn call_count(&self) -> (calls: u32)
        ensures
            calls == self@.calls,
    {
        self.calls
    }
}

impl LlmProvider for MockProvider {
    /// The call is counted. Whatever the request, the reply is the response at
    /// the front of the queue, which leaves it; or an error, where none is left.
    open spec fn gives(
        &self,
        request: RequestView,
        after: &Self,
        reply: std::result::Result<ResponseView, ErrorView>,
    ) -> bool {
        &&& after@.calls == (if self@.calls == u32::MAX {
            0
        } else {
            self@.calls + 1
        })
        &&& if self@.queue.len() > 0 {
            &&& reply == Ok::<ResponseView, ErrorView>(self@.queue[0])
            &&& after@.queue == self@.queue.skip(1)
        } else {
            &&& reply == Err::<ResponseView, ErrorView>(
                ErrorView::Tool("mock provider exhausted"@),
            )
            &&& after@.queue == self@.queue
        }
    }

    /// The next response, whatever the request.
    fn complete(&mut self, request: &LlmRequest) -> (outcome: Result<LlmResponse>) {
        self.calls = if self.calls == u32::MAX {
            0
        } else {
            self.calls + 1
        };
        let ghost before = self.queue@;
        match self.queue.pop() {
            Some(response) => {
                assert(responses_view(self.queue@.reverse()) =~= responses_view(
                    before.reverse(),
                ).skip(1));
                Ok(response)
            },
            None => Err(Error::Tool("mock provider exhausted".to_owned())),
        }
    }
}

/// What is left of a queue after a number of calls of `complete`.
pub open spec fn after_calls(queue: Seq<ResponseView>, n: nat) -> Seq<ResponseView>
    decreases n,
{
    if n == 0 {
        queue
    } else {
        let before = after_calls(queue, (n - 1) as nat);
        if before.len() > 0 {
            before.skip(1)
        } else {
            before
        }
    }
}

/// Responses come in the order in which they were queued, each once.
pub proof fn law_responses_come_in_order(queue: Seq<ResponseView>, n: nat)
    ensures
        after_calls(queue, n) == queue.skip(
            if n <= queue.len() {
                n as int
            } else {
                queue.len() as int
            },
        ),
    decreases n,
{
    if n > 0 {
        law_responses_come_in_order(queue, (n - 1) as nat);
    }
    assert(after_calls(queue, n) =~= queue.skip(
        if n <= queue.len() {
            n as int
        } else {
            queue.len() as int
        },
    ));
}

/// Every call is counted, and every call gets the next response as long as one is
/// left, at whichever call and for whichever request; after that, the one error.
pub proof fn law_every_queued_response_is_given(
    provider: MockProvider,
    request: RequestView,
    after: MockProvider,
    reply: std::result::Result<ResponseView, ErrorView>,
)
    requires
        provider.gives(request, &after, reply),
    ensures
        provider@.calls < 0xffff_ffff ==> after@.calls == provider@.calls + 1,
        provider@.calls == 0xffff_ffff ==> after@.calls == 0,
        provider@.queue.len() > 0 ==> {
            &&& reply == Ok::<ResponseView, ErrorView>(provider@.queue[0])
            &&& after@.queue.len() == provider@.queue.len() - 1
            &&& forall|i: int|
                0 <= i < after@.queue.len() ==> #[trigger] after@.queue[i] == provider@.queue[i + 1]
        },
        provider@.queue.len() == 0 ==> {
            &&& reply == Err::<ResponseView, ErrorView>(
                ErrorView::Tool("mock provider exhausted"@),
            )
            &&& after@.queue.len() == 0
        },
{
}

/// A queue is taken for its responses, all of them and in order.
pub proof fn law_responses_view_keeps_every_response(responses: Seq<LlmResponse>)
    ensures
        responses_view(responses).len() == responses.len(),
        forall|i: int|
            0 <= i < responses.len() ==> #[trigger] responses_view(responses)[i] == responses[i]@,
{
}

} // verus!
