//! Configuration errors, reported when a stage is constructed.
use vstd::prelude::*;

verus! {

/// Why a stage could not be constructed.
#[derive(Clone, Copy, PartialEq, Eq, Structural, Debug)]
pub enum ConfigError {
    /// An envelope phase was given a length of zero samples.
    ZeroLengthPhase,
    /// A sustain level outside [0, 1].
    SustainOutOfRange,
    /// A delay line of zero samples.
    ZeroDelay,
}

} // verus!
