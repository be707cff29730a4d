//! Cooperative cancellation.

use std::sync::atomic::{AtomicBool, Ordering};
use std::sync::Arc;
use vstd::prelude::*;

verus! {

/// Cooperative cancellation handle. Cloneable; all clones share one flag.
///
/// A token is attached to a context; external callers (a scheduler, a command
/// line, a signal handler) flip the flag by calling [`CancelToken::cancel`] on
/// any clone. The runtime polls the flag before each tool-call attempt and
/// reports [`crate::Error::Cancelled`] when it is set.
///
/// Cancellation is cooperative: a tool that is running is not interrupted. A
/// per-attempt timeout ([`crate::RetryPolicy::with_timeout`]) bounds a stuck
/// tool.
///
/// The flag is shared memory that other threads write, so a call's contract
/// says which operation it performs on which flag, not what the flag holds
/// before or after.
#[derive(Debug)]
pub struct CancelToken {
    inner: Arc<AtomicBool>,
}

impl CancelToken {
    /// The shared flag that this token reads and writes.
    pub closed spec fn flag(&self) -> AtomicBool {
        *self.inner
    }

    /// Whether the flag of this token was made unset: `AtomicBool::new(false)`
    /// can have given it.
    pub open spec fn starts_unset(&self) -> bool {
        call_ensures(AtomicBool::new, (false,), self.flag())
    }

    /// Whether the flag of this token was set: a `store` of `true` on it has
    /// returned.
    pub open spec fn was_set(&self) -> bool {
        call_ensures(AtomicBool::store, (&self.flag(), true, Ordering::SeqCst), ())
    }

    /// Whether the flag of this token was read so: a `load` of it can have
    /// returned this value.
    pub open spec fn reads(&self, value: bool) -> bool {
        call_ensures(AtomicBool::load, (&self.flag(), Ordering::SeqCst), value)
    }

    /// A token whose flag is not set.
    pub fn new() -> (token: Self)
        ensures
            token.starts_unset(),
    {
        CancelToken { inner: Arc::new(AtomicBool::new(false)) }
    }

    /// Sets the flag that all clones of this token share.
    pub fn cancel(&self)
        ensures
            self.was_set(),
    {
        self.inner.store(true, Ordering::SeqCst);
    }

    /// Whether any clone of this token has set the shared flag.
    pub fn is_cancelled(&self) -> (cancelled: bool)
        ensures
            self.reads(cancelled),
    {
        self.inner.load(Ordering::SeqCst)
    }
}

impl Clone for CancelToken {
    fn clone(&self) -> (token: Self)
        ensures
            token.flag() == self.flag(),
    {
        CancelToken { inner: Arc::clone(&self.inner) }
    }
}

impl Default for CancelToken {
    fn default() -> (token: Self)
        ensures
            token.starts_unset(),
    {
        CancelToken::new()
    }
}

/// A new token is made of a flag that is not set, cancelling stores that it is
/// set, and polling loads it: each on the one flag that all clones share.
pub proof fn law_token_works_on_its_flag(token: CancelToken, value: bool)
    ensures
        token.starts_unset() <==> call_ensures(AtomicBool::new, (false,), token.flag()),
        token.was_set() <==> call_ensures(
            AtomicBool::store,
            (&token.flag(), true, Ordering::SeqCst),
            (),
        ),
        token.reads(value) <==> call_ensures(
            AtomicBool::load,
            (&token.flag(), Ordering::SeqCst),
            value,
        ),
{
}

} // verus!
