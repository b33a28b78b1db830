//! What the engine is handed when a subscription is registered, and gets
//! back on each of its callbacks.

use vstd::prelude::*;

verus! {

/// The context of a subscription's payload callback. It goes to the engine
/// and comes back with every payload.
#[derive(Debug, PartialEq, Eq)]
pub struct NextContext {
    /// The worker's thread, to be woken after each payload.
    pub thread_id: u32,
}

/// The context of a subscription's completion callback. It is used up by the
/// one completion.
#[derive(Debug, PartialEq, Eq)]
pub struct CompleteContext {
    /// The worker's thread, to be woken after the completion.
    pub thread_id: u32,
}

/// A payload to forward to the subscriber, and the thread to wake after it.
#[derive(Debug, PartialEq, Eq)]
pub struct Delivery {
    pub payload: String,
    pub wake: u32,
}

impl NextContext {
    /// A payload has come: it is forwarded as it is, the worker is woken, and
    /// the context goes back to the engine for the next one.
    pub fn next(self, payload: String) -> (result: (NextContext, Delivery))
        ensures
            result.0 == self,
            result.1.payload == payload,
            result.1.wake == self.thread_id,
    {
        let wake = self.thread_id;
        (self, Delivery { payload, wake })
    }
}

impl CompleteContext {
    /// The subscription is complete: the subscriber is told, and the worker
    /// with this thread is woken.
    pub fn complete(self) -> (wake: u32)
        ensures
            wake == self.thread_id,
    {
        self.thread_id
    }
}

} // verus!
