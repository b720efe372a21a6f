//! The shared cell: one atomic byte holding a code of `state`.
//!
//! Any number of threads may hold a `&QuickBool` at once, so the byte can change
//! between any two reads. The methods below therefore promise nothing about what
//! a read finds; what they answer for each byte they find, and what `get_or_set`
//! hands to its exchange, is stated and proved by the functions of `state` that
//! they hand it to (`state_value`, `state_is_set`, `settle`).

use std::sync::atomic::AtomicU8;
use std::sync::atomic::Ordering;
use vstd::prelude::*;

use crate::state::settle;
use crate::state::state_is_set;
use crate::state::state_value;
use crate::state::UNSET;

verus! {

/// A lock-free boolean with three states: unset, `true` and `false`.
///
/// Once set to `true` or `false`, the value stays until `reset` is called. Each
/// call of `get_or_set` runs its closure at most once, and no call that finds a
/// value stored runs it; callers racing on an unset cell may each run their own
/// closure, but only one value is stored and each of them returns the value stored.
#[derive(Debug)]
pub struct QuickBool {
    state: AtomicU8,
}

impl QuickBool {
    /// Creates a `QuickBool` in the unset state.
    pub fn new() -> (r: Self) {
        QuickBool { state: AtomicU8::new(UNSET) }
    }

    /// Returns the cached value, or, while the value is unset, calls `f`, tries to
    /// store what it returned, and returns the value that ended up stored: its own
    /// when its exchange won, the other writer's when another thread got there first.
    pub fn get_or_set<F>(&self, f: F) -> (r: bool)
        where
            F: FnOnce() -> bool,
        requires
            f.requires(()),
    {
        let current = self.state.load(Ordering::Relaxed);
        settle(
            current,
            f,
            |target: u8|
                self.state.compare_exchange(UNSET, target, Ordering::AcqRel, Ordering::Acquire),
        )
    }

    /// Returns the value without computing it: `None` while unset.
    #[inline]
    pub fn get(&self) -> (r: Option<bool>) {
        state_value(self.state.load(Ordering::Relaxed))
    }

    /// Whether the value has been set, to either `true` or `false`.
    #[inline]
    pub fn is_set(&self) -> (r: bool) {
        state_is_set(self.state.load(Ordering::Relaxed))
    }

    /// Puts the value back into the unset state, so that the next `get_or_set`
    /// computes it again.
    pub fn reset(&self) {
        self.state.store(UNSET, Ordering::Release);
    }
}

impl Default for QuickBool {
    fn default() -> (r: Self) {
        Self::new()
    }
}

impl Clone for QuickBool {
    /// A new cell holding the code that this one holds at the moment of the read.
    fn clone(&self) -> (r: Self) {
        QuickBool { state: AtomicU8::new(self.state.load(Ordering::Relaxed)) }
    }
}

} // verus!
