//! The load-following dispatch policy.

use vstd::prelude::*;
use crate::types::{Power, spec_in_range};

verus! {

/// The policy that asks the battery to take whatever generation exceeds
/// consumption, and to give whatever it falls short by.
#[derive(Debug, Clone, Copy, PartialEq, Eq, Structural)]
pub struct LoadFollowing();

impl LoadFollowing {
    /// The policy; it has no state.
    pub fn new() -> (r: LoadFollowing)
        ensures
            r == LoadFollowing(),
    {
        LoadFollowing()
    }

    /// The signed power command: generation minus consumption, which must be
    /// within the magnitude bound of a power.
    pub fn decide(&self, generation: Power, consumption: Power) -> (r: Power)
        requires
            spec_in_range(generation@ - consumption@),
        ensures
            r@ == generation@ - consumption@,
    {
        generation - consumption
    }
}

} // verus!
