//! Randomness for the click generator.

use vstd::prelude::*;

verus! {

/// Relies on rand::random: draws one value from the thread-local generator.
/// The result is random, so nothing is promised of it; the render step
/// states what holds of its output for every value the draw can take.
pub assume_specification<T>[ rand::random::<T> ]() -> (r: T)
    where
        rand::distributions::Standard: rand::distributions::Distribution<T>,
;

} // verus!
