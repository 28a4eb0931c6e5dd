//! Push-to-talk state — shared between the audio thread and the UI/hotkey thread.
use vstd::prelude::*;

use std::sync::atomic::AtomicBool;
use std::sync::Arc;

verus! {

/// Shared PTT state. Clone-able, cheap to share across threads: every clone
/// reads and writes the same flag.
///
/// The flag lives in an atomic that other threads may write at any moment,
/// so no contract here says what a later read returns.
#[derive(Clone, Debug)]
pub struct PttState(pub(crate) Arc<AtomicBool>);

impl PttState {
    /// Create a new PTT state, initially inactive.
    pub fn new() -> Self {
        Self(Arc::new(AtomicBool::new(false)))
    }

    /// Activate PTT (key pressed).
    pub fn press(&self) {
        self.0.store(true, std::sync::atomic::Ordering::Relaxed);
    }

    /// Deactivate PTT (key released).
    pub fn release(&self) {
        self.0.store(false, std::sync::atomic::Ordering::Relaxed);
    }

    /// Returns true if PTT is currently active.
    pub fn is_active(&self) -> bool {
        self.0.load(std::sync::atomic::Ordering::Relaxed)
    }
}

impl Default for PttState {
    fn default() -> Self {
        Self::new()
    }
}

} // verus!
