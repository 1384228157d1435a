//! The progress reporter.
//!
//! A monotonically advancing counter over the total frame count of one
//! invocation, advanced exactly once per frame that reaches the collect
//! stage, whatever the strategy. Rendering it is the embedding program's
//! business; the library only accounts.

use vstd::prelude::*;

verus! {

/// A monotone counter bounded by the invocation's frame total.
pub struct ProgressCounter {
    count: usize,
    total: usize,
}

impl ProgressCounter {
    /// How many frames have been counted.
    pub closed spec fn spec_count(&self) -> int {
        self.count as int
    }

    /// The frame total this invocation was announced with.
    pub closed spec fn spec_total(&self) -> int {
        self.total as int
    }

    /// The counter never runs past its total.
    pub closed spec fn wf(&self) -> bool {
        self.count <= self.total
    }

    /// A fresh counter for an invocation of `total` frames.
    pub fn new(total: usize) -> (r: ProgressCounter)
        ensures
            r.wf(),
            r.spec_count() == 0,
            r.spec_total() == total,
    {
        ProgressCounter { count: 0, total }
    }

    /// Advance by exactly one frame.
    pub fn inc(&mut self)
        requires
            old(self).wf(),
            old(self).spec_count() < old(self).spec_total(),
        ensures
            final(self).wf(),
            final(self).spec_count() == old(self).spec_count() + 1,
            final(self).spec_total() == old(self).spec_total(),
    {
        self.count = self.count + 1;
    }

    /// How many frames have been counted.
    pub fn count(&self) -> (r: usize)
        ensures
            r == self.spec_count(),
    {
        self.count
    }

    /// The frame total this invocation was announced with.
    pub fn total(&self) -> (r: usize)
        ensures
            r == self.spec_total(),
    {
        self.total
    }
}

} // verus!
