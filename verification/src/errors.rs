//! Error values reported by the proving and verifying drivers.

use vstd::prelude::*;

verus! {

/// An error during proving or verification returned by a driver function.
#[derive(Clone, Copy, PartialEq, Eq, Structural, Debug)]
pub enum ProofError {
    /// A public point failed its decoding or subgroup check at allocation.
    PointMalformed,
    /// The final verification equality did not hold.
    VerificationFailure,
    /// In batch verification, an instance-point vector differed in length
    /// from the number of instances.
    LengthMismatch,
    /// The underlying field or group library produced an exceptional output.
    InternalArithmetic,
}

} // verus!
