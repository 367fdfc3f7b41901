//! The shapes of test signal a monitor sweeps through.

use vstd::prelude::*;

verus! {

/// How a test sweep moves through frequencies.
#[derive(Clone, Debug, PartialEq, Eq, Structural)]
pub enum SweepType {
    Linear,
    Logarithmic,
    Random,
    Stepped,
    Continuous,
}

} // verus!
