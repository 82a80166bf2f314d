//! A flag that an embedder sets to interrupt a running machine.
use vstd::prelude::*;

use std::sync::atomic::AtomicBool;
use std::sync::Arc;

verus! {

/// Shared cancellation state used by embedders to interrupt VM execution.
#[derive(Debug, Clone, Default)]
pub struct CancellationToken {
    cancelled: Arc<AtomicBool>,
}

/// Calls `Arc::clone`, which hands out another pointer to the same allocation; the contract
/// claims that the result is the same flag.
#[verifier::external_body]
fn share(flag: &Arc<AtomicBool>) -> (r: Arc<AtomicBool>)
    ensures
        r == *flag,
{
    Arc::clone(flag)
}

impl CancellationToken {
    /// The flag that the token shares.
    pub closed spec fn shared_flag(&self) -> Arc<AtomicBool> {
        self.cancelled
    }

    /// A token that is not cancelled.
    pub fn new() -> Self {
        CancellationToken { cancelled: Arc::new(AtomicBool::new(false)) }
    }

    /// Ask the machine to stop at its next step.
    pub fn cancel(&self) {
        self.cancelled.store(true, std::sync::atomic::Ordering::SeqCst);
    }

    /// Withdraw a cancellation.
    pub fn reset(&self) {
        self.cancelled.store(false, std::sync::atomic::Ordering::SeqCst);
    }

    /// Whether the token is cancelled. Another thread may set or clear the flag at any time,
    /// so nothing is promised of the answer.
    pub fn is_cancelled(&self) -> bool {
        self.cancelled.load(std::sync::atomic::Ordering::SeqCst)
    }

    /// The shared flag itself, for embedders that set it from elsewhere.
    pub fn flag(&self) -> (r: Arc<AtomicBool>)
        ensures
            r == self.shared_flag(),
    {
        share(&self.cancelled)
    }
}

} // verus!
