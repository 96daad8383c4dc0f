//! A step counter for reporting how much of a workload is done.

use vstd::prelude::*;

verus! {

/// `i` steps done of `count`.
#[derive(Copy, Clone, Debug, PartialEq, Eq, Structural)]
pub struct Progress {
    pub i: usize,
    pub count: usize,
}

impl Progress {
    pub fn new(count: usize) -> (p: Progress)
        ensures
            p == (Progress { i: 0, count }),
    {
        Progress { i: 0, count }
    }

    /// One more step done.
    pub fn next(&mut self)
        requires
            old(self).i < usize::MAX,
        ensures
            final (self).i == old(self).i + 1,
            final (self).count == old(self).count,
    {
        self.i = self.i + 1;
    }

    /// The steps done and the total.
    pub fn get(&self) -> (r: (usize, usize))
        ensures
            r == (self.i, self.count),
    {
        (self.i, self.count)
    }
}

} // verus!
