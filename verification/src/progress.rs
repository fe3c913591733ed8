//! Cancellation of a running conversion, and the phases a conversion goes through.
use vstd::prelude::*;
use std::sync::Arc;
use std::sync::atomic::AtomicBool;

verus! {

/// Handle for the host to signal cancellation to a plugin. It shares its flag
/// with the progress callback the plugin polls.
pub struct CancellationHandle {
    cancelled: Arc<AtomicBool>,
}

impl CancellationHandle {
    /// A handle on the given shared flag.
    pub fn from_flag(cancelled: Arc<AtomicBool>) -> (r: Self)
        ensures
            r.flag() == cancelled,
    {
        CancellationHandle { cancelled }
    }

    /// The shared flag.
    pub closed spec fn flag(&self) -> Arc<AtomicBool> {
        self.cancelled
    }

    /// Signal the plugin to cancel.
    pub fn cancel(&self) {
        self.cancelled.store(true, std::sync::atomic::Ordering::Relaxed);
    }

    /// Check if cancellation was requested. The flag is shared with other threads,
    /// so nothing is stated of what is read.
    pub fn is_cancelled(&self) -> bool {
        self.cancelled.load(std::sync::atomic::Ordering::Relaxed)
    }

    /// Reset the cancellation flag (for reuse).
    pub fn reset(&self) {
        self.cancelled.store(false, std::sync::atomic::Ordering::Relaxed);
    }
}

/// Phase of the conversion pipeline.
#[derive(Debug, Clone, Copy, PartialEq, Eq, Structural)]
pub enum ConversionPhase {
    Probing,
    Decoding,
    Transforming,
    Encoding,
    Verifying,
}

} // verus!
