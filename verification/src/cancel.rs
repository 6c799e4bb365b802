//! One-shot cancellation signal shared by the two relays.
//!
//! A single-fire flag: firing it is idempotent, so firing more than once
//! is harmless, and once fired it stays fired for the rest of the attach
//! cycle.

use vstd::prelude::*;

verus! {

/// Cooperative cancellation token for one attach cycle. `false` until
/// fired, `true` ever after.
pub struct CancelToken {
    fired: bool,
}

impl CancelToken {
    /// True exactly when the token has been fired.
    pub closed spec fn view(&self) -> bool {
        self.fired
    }

    /// A fresh, unfired token.
    pub fn new() -> (t: CancelToken)
        ensures
            !t@,
    {
        CancelToken { fired: false }
    }

    /// Fires the signal. Callable in any state: firing an already-fired
    /// token leaves it fired, so a second fire is harmless.
    pub fn fire(&mut self)
        ensures
            final(self)@,
    {
        self.fired = true;
    }

    /// Polls the signal without changing it.
    pub fn is_fired(&self) -> (r: bool)
        ensures
            r == self@,
    {
        self.fired
    }
}

} // verus!
