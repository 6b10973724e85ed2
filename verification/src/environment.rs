//! Run-wide settings shared by the components of a simulation.

use vstd::prelude::*;

verus! {

/// The settings of a run. There are none so far: every run is set up
/// through its builders.
#[derive(Debug)]
pub struct Environment {}

impl Default for Environment {
    fn default() -> Self {
        Environment {  }
    }
}

} // verus!
