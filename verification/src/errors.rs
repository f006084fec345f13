//! The errors of the constraint-system core.

use vstd::prelude::*;

verus! {

/// What can go wrong while a constraint system is built, finalized or checked.
#[derive(Clone, Copy, Debug, PartialEq, Eq, Structural)]
pub enum R1CSError {
    /// The assignments of one multiplier mix values with missing ones, or
    /// the output is not the product of the inputs.
    InvalidAssignment,
    /// A witness value is missing where the prover needs one.
    MissingAssignment,
    /// Two vectors that must have the same length do not.
    IncorrectInputSize,
    /// There are fewer generators than the padded circuit has multipliers.
    InvalidGeneratorsLength,
    /// The proof did not verify.
    VerificationError,
    /// A proof could not be decoded.
    FormatError,
}

} // verus!
