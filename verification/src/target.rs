//! Decorators of an objective, as far as they count rather than compute.

use vstd::prelude::*;

verus! {

/// An objective that is evaluated several times per probe, to smooth out
/// its noise: `count` evaluations beyond the first, averaged by the caller.
pub struct Oversample<T> {
    /// The objective that is decorated.
    pub source: T,
    /// Evaluations per probe beyond the first.
    pub count: usize,
}

impl<T> Oversample<T> {
    /// The number of evaluations per probe can be counted.
    pub open spec fn wf(self) -> bool {
        self.count < usize::MAX
    }

    /// Decorates `source` so that each probe takes `count + 1` evaluations.
    pub fn new(source: T, count: usize) -> (o: Self)
        requires
            count < usize::MAX,
        ensures
            o.source == source,
            o.count == count,
            o.wf(),
    {
        Oversample { source, count }
    }

    /// Evaluations per probe: the divisor of the average.
    pub fn samples(&self) -> (n: usize)
        requires
            self.wf(),
        ensures
            n == self.count + 1,
    {
        self.count + 1
    }

    /// Gives the decorated objective back.
    pub fn into_inner(self) -> (source: T)
        ensures
            source == self.source,
    {
        self.source
    }
}

} // verus!
