//! Small helpers.

use vstd::prelude::*;

verus! {

/// A latch that tells the first call from all later ones.
pub struct FirstRun {
    seen: bool,
}

impl Default for FirstRun {
    fn default() -> (latch: FirstRun)
        ensures
            !latch.has_run(),
    {
        FirstRun { seen: false }
    }
}

impl FirstRun {
    /// Whether [`FirstRun::is_first_run`] has been called.
    pub closed spec fn has_run(&self) -> bool {
        self.seen
    }

    /// Returns `true` on the first call and `false` on every later one.
    pub fn is_first_run(&mut self) -> (first: bool)
        ensures
            first == !old(self).has_run(),
            final(self).has_run(),
    {
        if !self.seen {
            self.seen = true;
            true
        } else {
            false
        }
    }
}

} // verus!
