//! The stop flag shared by a renderer loop, the script interrupt handler and
//! the dials. Requesting a stop marks the flag; every engine sharing it winds
//! down at its next turn.

use std::sync::atomic::AtomicBool;
use vstd::prelude::*;

verus! {

/// Stop flag shared by a renderer loop, the script interrupt handler, and
/// dials. Other threads may set it at any time, so a read promises nothing
/// about the value it sees.
pub struct Stop {
    flag: AtomicBool,
}

impl Stop {
    /// A fresh, unset stop flag.
    pub fn new() -> (s: Self) {
        Stop { flag: AtomicBool::new(false) }
    }

    /// Requests a stop: marks the flag.
    pub fn request(&self) {
        self.flag.store(true, std::sync::atomic::Ordering::Relaxed);
    }

    /// Whether a stop has been requested.
    pub fn is_set(&self) -> (set: bool) {
        self.flag.load(std::sync::atomic::Ordering::Relaxed)
    }
}

} // verus!
