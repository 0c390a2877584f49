//! The Withdraw instruction: burn shares, collect both reserve legs.
//!
//! Payload layout (little-endian, no padding): `amount`(8) · `min_x`(8) ·
//! `min_y`(8) · `expiration`(8).  `amount` must be positive; the floors
//! may be zero.

use vstd::prelude::*;
use vstd::bytes::spec_u64_from_le_bytes;
use crate::codec::{read_i64_le, read_u64_le, spec_i64_from_le_bytes};
use crate::error::AmmError;
use crate::math::{spec_withdraw_leg, withdraw_amounts};
use crate::validate::{instruction_gate, spec_instruction_gate, StateRequirement};

verus! {

/// Length in bytes of a withdraw payload.
pub const WITHDRAW_DATA_LEN: usize = 32;

/// The decoded payload of a Withdraw.
#[derive(Clone, Copy, Debug, PartialEq, Eq, Structural)]
pub struct WithdrawInstructionData {
    /// Shares to burn; positive.
    pub amount: u64,
    /// Slippage floor on the token-X leg.
    pub min_x: u64,
    /// Slippage floor on the token-Y leg.
    pub min_y: u64,
    /// Unix timestamp the order expires at.
    pub expiration: i64,
}

/// What decoding a withdraw payload yields: exactly `WITHDRAW_DATA_LEN`
/// bytes, and a positive share amount.
pub open spec fn spec_parse_withdraw(s: Seq<u8>) -> Result<WithdrawInstructionData, AmmError> {
    if s.len() != WITHDRAW_DATA_LEN {
        Err(AmmError::InvalidInstructionData)
    } else {
        let d = WithdrawInstructionData {
            amount: spec_u64_from_le_bytes(s.subrange(0, 8)),
            min_x: spec_u64_from_le_bytes(s.subrange(8, 16)),
            min_y: spec_u64_from_le_bytes(s.subrange(16, 24)),
            expiration: spec_i64_from_le_bytes(s.subrange(24, 32)),
        };
        if d.amount == 0 {
            Err(AmmError::InvalidInstructionData)
        } else {
            Ok(d)
        }
    }
}

impl WithdrawInstructionData {
    /// A decoded withdraw payload always burns a positive share amount.
    pub open spec fn wf(self) -> bool {
        self.amount > 0
    }

    /// Decodes a withdraw payload, rejecting any other length exactly and
    /// a zero share amount.
    pub fn try_from_bytes(data: &[u8]) -> (r: Result<WithdrawInstructionData, AmmError>)
        ensures
            r == spec_parse_withdraw(data@),
            r matches Ok(d) ==> d.wf(),
    {
        let n = data.len();
        if n != WITHDRAW_DATA_LEN {
            return Err(AmmError::InvalidInstructionData);
        }
        let d = WithdrawInstructionData {
            amount: read_u64_le(data, 0),
            min_x: read_u64_le(data, 8),
            min_y: read_u64_le(data, 16),
            expiration: read_i64_le(data, 24),
        };
        if d.amount == 0 {
            return Err(AmmError::InvalidInstructionData);
        }
        Ok(d)
    }
}

/// The ledger operations a successful withdrawal requires of the host,
/// in order: transfer `x` of token X and `y` of token Y out of the
/// reserves to the withdrawer (pool signs each leg with a freshly built
/// signer), and only then burn `shares` from the withdrawer's share
/// account (withdrawer signs).
#[derive(Clone, Copy, Debug, PartialEq, Eq, Structural)]
pub struct WithdrawEffect {
    /// Token-X units returned to the withdrawer.
    pub x: u64,
    /// Token-Y units returned to the withdrawer.
    pub y: u64,
    /// Pool shares burned from the withdrawer.
    pub shares: u64,
}

/// Decides a Withdraw.
///
/// Inputs are as for the deposit decision; withdrawals are allowed in
/// every lifecycle state but `Disabled`, so providers can always exit a
/// merely deactivated pool.  Returns the exact effect the host must
/// apply, or the error of the first failing check:
///
/// - an expired order fails before anything else is examined;
/// - then the configuration record, the not-`Disabled` state, and the two
///   reserve addresses are checked in order;
/// - burning the entire outstanding supply pays out both reserves whole,
///   so no rounding remainder is ever stranded behind the last exit;
/// - otherwise both legs are priced proportionally, rounded down;
/// - either way the computed payout is checked against the withdrawer's
///   slippage floors, so even a full exit never pays out less than the
///   caller declared acceptable.
pub fn process(
    cfg_data: &[u8],
    owned: bool,
    now: i64,
    data: &WithdrawInstructionData,
    vault_x_address: &[u8; 32],
    vault_x_derived: &[u8; 32],
    vault_y_address: &[u8; 32],
    vault_y_derived: &[u8; 32],
    vault_x_amount: u64,
    vault_y_amount: u64,
    lp_supply: u64,
) -> (r: Result<WithdrawEffect, AmmError>)
    requires
        data.wf(),
    ensures
        ({
            let gate = spec_instruction_gate(
                cfg_data@,
                owned,
                now,
                data.expiration,
                StateRequirement::MustNotBeDisabled,
                vault_x_address@ == vault_x_derived@,
                vault_y_address@ == vault_y_derived@,
            );
            match gate {
                Err(e) => r == Err::<WithdrawEffect, AmmError>(e),
                Ok(c) => {
                    let xi = spec_withdraw_leg(
                        vault_x_amount as int,
                        lp_supply as int,
                        data.amount as int,
                    );
                    let yi = spec_withdraw_leg(
                        vault_y_amount as int,
                        lp_supply as int,
                        data.amount as int,
                    );
                    if data.amount == lp_supply {
                        if vault_x_amount < data.min_x || vault_y_amount < data.min_y {
                            r == Err::<WithdrawEffect, AmmError>(AmmError::SlippageExceeded)
                        } else {
                            r == Ok::<WithdrawEffect, AmmError>(WithdrawEffect {
                                x: vault_x_amount,
                                y: vault_y_amount,
                                shares: data.amount,
                            })
                        }
                    } else if lp_supply == 0 {
                        r == Err::<WithdrawEffect, AmmError>(AmmError::NoLiquidity)
                    } else if xi > u64::MAX || yi > u64::MAX {
                        r == Err::<WithdrawEffect, AmmError>(AmmError::MathOverflow)
                    } else if xi < data.min_x || yi < data.min_y {
                        r == Err::<WithdrawEffect, AmmError>(AmmError::SlippageExceeded)
                    } else {
                        r == Ok::<WithdrawEffect, AmmError>(WithdrawEffect {
                            x: xi as u64,
                            y: yi as u64,
                            shares: data.amount,
                        })
                    }
                },
            }
        }),
{
    let _config = match instruction_gate(
        cfg_data,
        owned,
        now,
        data.expiration,
        StateRequirement::MustNotBeDisabled,
        vault_x_address,
        vault_x_derived,
        vault_y_address,
        vault_y_derived,
    ) {
        Ok(c) => c,
        Err(e) => {
            return Err(e);
        },
    };
    if data.amount == lp_supply {
        // Full exit: the payout is the reserves whole, no remainder
        // stranded — but the caller's floors still bind.
        if vault_x_amount < data.min_x || vault_y_amount < data.min_y {
            return Err(AmmError::SlippageExceeded);
        }
        return Ok(WithdrawEffect {
            x: vault_x_amount,
            y: vault_y_amount,
            shares: data.amount,
        });
    }
    let legs = match withdraw_amounts(vault_x_amount, vault_y_amount, lp_supply, data.amount) {
        Ok(a) => a,
        Err(e) => {
            return Err(e);
        },
    };
    if legs.x < data.min_x || legs.y < data.min_y {
        return Err(AmmError::SlippageExceeded);
    }
    Ok(WithdrawEffect { x: legs.x, y: legs.y, shares: data.amount })
}

} // verus!
