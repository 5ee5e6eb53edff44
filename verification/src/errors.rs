//! The errors a protocol operation can report to its caller.

use vstd::prelude::*;

verus! {

/// Every failure the protocol core can detect.
///
/// - `InvalidEncoding`: malformed or off-curve point bytes.
/// - `LengthMismatch`: index and message counts differ, or a wire blob is
///   shorter than its mandatory header.
/// - `DecryptionError`: a ciphertext is too short to hold an IV, or the
///   symmetric cipher rejected its padding.
/// - `RandomnessUnavailable`: the system's secure random source failed.
#[derive(Clone, Copy, Debug, PartialEq, Eq, Structural)]
pub enum OtError {
    InvalidEncoding,
    LengthMismatch,
    DecryptionError,
    RandomnessUnavailable,
}

} // verus!
