//! The game's time source.
use vstd::prelude::*;

verus! {

/// A monotonic clock, read in nanoseconds since it was created.
pub trait Clock {
    fn elapsed_since_start(&self) -> u128;
}

} // verus!
