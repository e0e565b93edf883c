//! The closed set of reasons for which an invocation is rejected.

use vstd::prelude::*;

verus! {

/// Why an invocation failed. Any failure leaves every account as it was.
#[derive(Debug, Clone, Copy, PartialEq, Eq, Structural)]
pub enum PriceUpdateError {
    /// The instruction payload holds fewer than eight bytes.
    InvalidInstruction,
    /// The account list ended before the updater account was read.
    MissingAccount,
    /// The updater account did not sign the invocation.
    MissingRequiredSignature,
    /// The updater account is owned by another program.
    IncorrectProgramId,
    /// The account's storage holds fewer than eight bytes.
    Codec,
}

} // verus!
