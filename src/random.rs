use vstd::prelude::*;

verus! {

/// Relies on `rand::random`: a value drawn from the thread-local generator.
/// Nothing is promised about which value comes back.
pub assume_specification<T>[ rand::random::<T> ]() -> (r: T)
    where
        rand::distributions::Standard: rand::distributions::Distribution<T>,
;

} // verus!
