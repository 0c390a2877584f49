//! The Deposit instruction: contribute both reserve legs, mint shares.
//!
//! Payload layout (little-endian, no padding): `amount`(8) · `max_x`(8) ·
//! `max_y`(8) · `expiration`(8).  All of `amount`, `max_x` and `max_y`
//! must be positive.

use vstd::prelude::*;
use vstd::bytes::spec_u64_from_le_bytes;
use crate::codec::{read_i64_le, read_u64_le, spec_i64_from_le_bytes};
use crate::error::AmmError;
use crate::math::{deposit_amounts, spec_deposit_leg};
use crate::validate::{instruction_gate, spec_instruction_gate, StateRequirement};

verus! {

/// Length in bytes of a deposit payload.
pub const DEPOSIT_DATA_LEN: usize = 32;

/// The decoded payload of a Deposit.
#[derive(Clone, Copy, Debug, PartialEq, Eq, Structural)]
pub struct DepositInstructionData {
    /// Shares to mint; positive.
    pub amount: u64,
    /// Slippage ceiling on the token-X leg; positive.
    pub max_x: u64,
    /// Slippage ceiling on the token-Y leg; positive.
    pub max_y: u64,
    /// Unix timestamp the order expires at.
    pub expiration: i64,
}

/// What decoding a deposit payload yields: exactly `DEPOSIT_DATA_LEN`
/// bytes, and every amount field positive.
pub open spec fn spec_parse_deposit(s: Seq<u8>) -> Result<DepositInstructionData, AmmError> {
    if s.len() != DEPOSIT_DATA_LEN {
        Err(AmmError::InvalidInstructionData)
    } else {
        let d = DepositInstructionData {
            amount: spec_u64_from_le_bytes(s.subrange(0, 8)),
            max_x: spec_u64_from_le_bytes(s.subrange(8, 16)),
            max_y: spec_u64_from_le_bytes(s.subrange(16, 24)),
            expiration: spec_i64_from_le_bytes(s.subrange(24, 32)),
        };
        if d.amount == 0 || d.max_x == 0 || d.max_y == 0 {
            Err(AmmError::InvalidInstructionData)
        } else {
            Ok(d)
        }
    }
}

impl DepositInstructionData {
    /// A decoded deposit payload always carries positive amounts.
    pub open spec fn wf(self) -> bool {
        self.amount > 0 && self.max_x > 0 && self.max_y > 0
    }

    /// Decodes a deposit payload, rejecting any other length exactly and
    /// any zero amount.
    pub fn try_from_bytes(data: &[u8]) -> (r: Result<DepositInstructionData, AmmError>)
        ensures
            r == spec_parse_deposit(data@),
            r matches Ok(d) ==> d.wf(),
    {
        let n = data.len();
        if n != DEPOSIT_DATA_LEN {
            return Err(AmmError::InvalidInstructionData);
        }
        let d = DepositInstructionData {
            amount: read_u64_le(data, 0),
            max_x: read_u64_le(data, 8),
            max_y: read_u64_le(data, 16),
            expiration: read_i64_le(data, 24),
        };
        if d.amount == 0 || d.max_x == 0 || d.max_y == 0 {
            return Err(AmmError::InvalidInstructionData);
        }
        Ok(d)
    }
}

/// The ledger operations a successful deposit requires of the host, in
/// order: transfer `x` of token X and `y` of token Y from the depositor
/// into the reserves (depositor signs), and only after both legs succeed
/// mint `shares` pool shares to the depositor (pool signs) — minting is
/// the irrevocable step that grants value.
#[derive(Clone, Copy, Debug, PartialEq, Eq, Structural)]
pub struct DepositEffect {
    /// Token-X units the depositor contributes.
    pub x: u64,
    /// Token-Y units the depositor contributes.
    pub y: u64,
    /// Pool shares minted to the depositor.
    pub shares: u64,
}

/// Decides a Deposit.
///
/// Inputs are the raw configuration account (`cfg_data`, with `owned`
/// stating it is owned by this program), the current time, the decoded
/// payload, the two reserve accounts' addresses beside the associated
/// addresses the host re-derived for them, and the fresh reserve balances
/// and share supply.  Returns the exact effect the host must apply, or
/// the error of the first failing check:
///
/// - an expired order fails before anything else is examined;
/// - then the configuration record, the `Initialized` state, and the two
///   reserve addresses are checked in order;
/// - the pool's first deposit (no supply, both reserves empty) takes
///   `max_x`/`max_y` literally as the seed liquidity;
/// - otherwise both legs are priced proportionally, rounded up, and
///   checked against the depositor's slippage ceilings.
pub fn process(
    cfg_data: &[u8],
    owned: bool,
    now: i64,
    data: &DepositInstructionData,
    vault_x_address: &[u8; 32],
    vault_x_derived: &[u8; 32],
    vault_y_address: &[u8; 32],
    vault_y_derived: &[u8; 32],
    vault_x_amount: u64,
    vault_y_amount: u64,
    lp_supply: u64,
) -> (r: Result<DepositEffect, AmmError>)
    requires
        data.wf(),
    ensures
        ({
            let gate = spec_instruction_gate(
                cfg_data@,
                owned,
                now,
                data.expiration,
                StateRequirement::MustBeInitialized,
                vault_x_address@ == vault_x_derived@,
                vault_y_address@ == vault_y_derived@,
            );
            match gate {
                Err(e) => r == Err::<DepositEffect, AmmError>(e),
                Ok(c) => {
                    let first = lp_supply == 0 && vault_x_amount == 0 && vault_y_amount == 0;
                    let xi = spec_deposit_leg(
                        vault_x_amount as int,
                        lp_supply as int,
                        data.amount as int,
                    );
                    let yi = spec_deposit_leg(
                        vault_y_amount as int,
                        lp_supply as int,
                        data.amount as int,
                    );
                    if first {
                        r == Ok::<DepositEffect, AmmError>(DepositEffect {
                            x: data.max_x,
                            y: data.max_y,
                            shares: data.amount,
                        })
                    } else if lp_supply == 0 {
                        r == Err::<DepositEffect, AmmError>(AmmError::NoLiquidity)
                    } else if xi > u64::MAX || yi > u64::MAX {
                        r == Err::<DepositEffect, AmmError>(AmmError::MathOverflow)
                    } else if xi > data.max_x || yi > data.max_y {
                        r == Err::<DepositEffect, AmmError>(AmmError::SlippageExceeded)
                    } else {
                        r == Ok::<DepositEffect, AmmError>(DepositEffect {
                            x: xi as u64,
                            y: yi as u64,
                            shares: data.amount,
                        })
                    }
                },
            }
        }),
{
    let _config = match instruction_gate(
        cfg_data,
        owned,
        now,
        data.expiration,
        StateRequirement::MustBeInitialized,
        vault_x_address,
        vault_x_derived,
        vault_y_address,
        vault_y_derived,
    ) {
        Ok(c) => c,
        Err(e) => {
            return Err(e);
        },
    };
    if lp_supply == 0 && vault_x_amount == 0 && vault_y_amount == 0 {
        // First deposit: the caller's ceilings are the seed liquidity.
        return Ok(DepositEffect { x: data.max_x, y: data.max_y, shares: data.amount });
    }
    let legs = match deposit_amounts(vault_x_amount, vault_y_amount, lp_supply, data.amount) {
        Ok(a) => a,
        Err(e) => {
            return Err(e);
        },
    };
    if legs.x > data.max_x || legs.y > data.max_y {
        return Err(AmmError::SlippageExceeded);
    }
    Ok(DepositEffect { x: legs.x, y: legs.y, shares: data.amount })
}

} // verus!
