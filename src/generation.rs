//! The generation controller: a strictly increasing counter that names the
//! query that is current.
use vstd::prelude::*;

verus! {

/// Process-wide counter of query generations.
///
/// `bump` makes a new generation current; `current` reads it. The ghost
/// field records every value handed out by `bump`, oldest first.
pub struct GenerationCounter {
    current: u64,
    issued: Ghost<Seq<u64>>,
}

impl GenerationCounter {
    /// The value that is current.
    pub closed spec fn value(&self) -> u64 {
        self.current
    }

    /// Every generation handed out so far, in the order of the calls.
    pub closed spec fn history(&self) -> Seq<u64> {
        self.issued@
    }

    /// The handed-out values increase strictly and none exceeds the current one.
    pub closed spec fn wf(&self) -> bool {
        &&& forall|i: int, j: int|
            0 <= i < j < self.issued@.len() ==> #[trigger] self.issued@[i] < #[trigger] self.issued@[j]
        &&& forall|i: int| 0 <= i < self.issued@.len() ==> #[trigger] self.issued@[i] <= self.current
    }

    /// A counter whose current generation is zero and which has handed out nothing.
    pub fn new() -> (r: Self)
        ensures
            r.wf(),
            r.value() == 0,
            r.history() == Seq::<u64>::empty(),
    {
        GenerationCounter { current: 0, issued: Ghost(Seq::empty()) }
    }

    /// Reads the current generation without changing it.
    pub fn current(&self) -> (r: u64)
        ensures
            r == self.value(),
    {
        self.current
    }

    /// Makes the next generation current and returns it.
    ///
    /// The returned value is strictly greater than every value returned before.
    pub fn bump(&mut self) -> (r: u64)
        requires
            old(self).wf(),
            old(self).value() < u64::MAX,
        ensures
            final(self).wf(),
            r == old(self).value() + 1,
            final(self).value() == r,
            final(self).history() == old(self).history().push(r),
            forall|i: int| 0 <= i < old(self).history().len() ==> #[trigger] old(self).history()[i] < r,
    {
        self.current = self.current + 1;
        self.issued = Ghost(self.issued@.push(self.current));
        self.current
    }
}

} // verus!
