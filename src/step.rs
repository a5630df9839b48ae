//! The single-use step that every computation shape is built from.
use vstd::prelude::*;

verus! {

/// A unit of deferred work from an input `I` to an output `O`, consumed when
/// it runs.
pub trait Step<I, O> {
    /// The step may be run on any input.
    spec fn ready(&self) -> bool;

    /// `o` is an output that running the step on `i` may give.
    spec fn yields(&self, i: I, o: O) -> bool;

    fn run_once(self: Box<Self>, i: I) -> (o: O)
        requires
            self.ready(),
        ensures
            self.yields(i, o),
    ;
}

} // verus!
