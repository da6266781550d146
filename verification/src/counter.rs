//! A counter that many readers of a backend may bump at once.

use std::sync::atomic::AtomicU64;
use vstd::prelude::*;

verus! {

/// Adds one to the counter and returns what it held before. Other threads
/// may bump it at the same time, so nothing is said of the value.
pub fn bump(counter: &AtomicU64) -> u64 {
    counter.fetch_add(1, std::sync::atomic::Ordering::Relaxed)
}

} // verus!
