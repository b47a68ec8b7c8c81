use vstd::prelude::*;

verus! {

/// What wakes the sampling loop.
#[derive(Clone, Copy, Debug, PartialEq, Eq, Structural)]
pub enum Event {
    /// One sample period has elapsed.
    Tick,
}

} // verus!
