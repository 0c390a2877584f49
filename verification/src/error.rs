//! The error taxonomy of the pool engine.
//!
//! Every instruction either fully succeeds or aborts with one of these
//! errors; no failure is silently swallowed and no instruction no-ops.

use vstd::prelude::*;

verus! {

/// Why an instruction was rejected.
///
/// The variants follow the engine's failure surfaces: decoding, account
/// validation, lifecycle state, expiry, and the economic guards.
#[derive(Clone, Copy, Debug, PartialEq, Eq, Structural)]
pub enum AmmError {
    /// Payload of the wrong length, or a zero amount where a positive
    /// value is mandatory.
    InvalidInstructionData,
    /// A configuration record of the wrong size or with malformed fields.
    InvalidAccountData,
    /// The configuration account is not owned by this program.
    InvalidAccountOwner,
    /// A reserve account does not sit at its derived address.
    InvalidVaultAddress,
    /// The pool's lifecycle state forbids the requested instruction.
    InvalidState,
    /// The instruction's expiration is at or before the current time.
    OrderExpired,
    /// A slippage ceiling or floor was violated.
    SlippageExceeded,
    /// A swap leg came out as zero.
    DegenerateSwap,
    /// A curve computation left the 64-bit range.
    MathOverflow,
    /// No shares are outstanding, so no proportional price exists.
    NoLiquidity,
}

} // verus!
