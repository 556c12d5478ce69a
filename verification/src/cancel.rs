//! A shared cancellation flag checked between audio blocks.
use vstd::prelude::*;

use std::sync::atomic::AtomicBool;
use std::sync::atomic::Ordering;
use std::sync::Arc;

verus! {

/// A thread-safe cancellation flag checked between audio blocks.
///
/// Clones share one flag. Other threads may change it at any time, so
/// nothing is promised of what a read returns.
#[derive(Clone, Debug)]
pub struct AudioCancellationToken {
    cancelled: Arc<AtomicBool>,
}

impl Default for AudioCancellationToken {
    fn default() -> (token: Self) {
        AudioCancellationToken::new()
    }
}

impl AudioCancellationToken {
    /// Creates an uncancelled token.
    pub fn new() -> (token: Self) {
        AudioCancellationToken { cancelled: Arc::new(AtomicBool::new(false)) }
    }

    /// Requests cancellation before the next block begins.
    pub fn cancel(&self) {
        self.cancelled.store(true, Ordering::Release);
    }

    /// Clears a previous cancellation request for reuse.
    pub fn reset(&self) {
        self.cancelled.store(false, Ordering::Release);
    }

    /// Returns whether cancellation has been requested.
    pub fn is_cancelled(&self) -> (cancelled: bool) {
        self.cancelled.load(Ordering::Acquire)
    }
}

} // verus!
