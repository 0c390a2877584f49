//! The Swap instruction: trade one token for the other against the pool.
//!
//! Payload layout (little-endian, no padding): `is_x`(1) · `amount`(8) ·
//! `min`(8) · `expiration`(8).  `amount` and `min` must be positive;
//! `is_x` nonzero means the caller sends token X and receives token Y.

use vstd::prelude::*;
use vstd::bytes::spec_u64_from_le_bytes;
use crate::codec::{read_i64_le, read_u64_le, spec_i64_from_le_bytes};
use crate::error::AmmError;
use crate::math::{lemma_swap_product_nondecreasing, spec_swap_output, swap_amounts};
use crate::validate::{instruction_gate, spec_instruction_gate, StateRequirement};

verus! {

/// Length in bytes of a swap payload.
pub const SWAP_DATA_LEN: usize = 25;

/// The decoded payload of a Swap.
#[derive(Clone, Copy, Debug, PartialEq, Eq, Structural)]
pub struct SwapInstructionData {
    /// Direction flag: nonzero means the caller sends token X.
    pub is_x: u8,
    /// Input units the caller sends; positive.
    pub amount: u64,
    /// Minimum acceptable output units; positive.
    pub min: u64,
    /// Unix timestamp the order expires at.
    pub expiration: i64,
}

/// What decoding a swap payload yields: exactly `SWAP_DATA_LEN` bytes,
/// and positive `amount` and `min`.
pub open spec fn spec_parse_swap(s: Seq<u8>) -> Result<SwapInstructionData, AmmError> {
    if s.len() != SWAP_DATA_LEN {
        Err(AmmError::InvalidInstructionData)
    } else {
        let d = SwapInstructionData {
            is_x: s[0],
            amount: spec_u64_from_le_bytes(s.subrange(1, 9)),
            min: spec_u64_from_le_bytes(s.subrange(9, 17)),
            expiration: spec_i64_from_le_bytes(s.subrange(17, 25)),
        };
        if d.amount == 0 || d.min == 0 {
            Err(AmmError::InvalidInstructionData)
        } else {
            Ok(d)
        }
    }
}

impl SwapInstructionData {
    /// A decoded swap payload always carries positive amounts.
    pub open spec fn wf(self) -> bool {
        self.amount > 0 && self.min > 0
    }

    /// The direction as a flag: true means the caller sends token X.
    pub open spec fn spec_is_x(self) -> bool {
        self.is_x != 0
    }

    /// Whether the caller sends token X (and receives token Y).
    pub fn is_x(&self) -> (r: bool)
        ensures
            r == self.spec_is_x(),
    {
        self.is_x != 0
    }

    /// Decodes a swap payload, rejecting any other length exactly and a
    /// zero amount or floor.
    pub fn try_from_bytes(data: &[u8]) -> (r: Result<SwapInstructionData, AmmError>)
        ensures
            r == spec_parse_swap(data@),
            r matches Ok(d) ==> d.wf(),
    {
        let n = data.len();
        if n != SWAP_DATA_LEN {
            return Err(AmmError::InvalidInstructionData);
        }
        let d = SwapInstructionData {
            is_x: data[0],
            amount: read_u64_le(data, 1),
            min: read_u64_le(data, 9),
            expiration: read_i64_le(data, 17),
        };
        if d.amount == 0 || d.min == 0 {
            return Err(AmmError::InvalidInstructionData);
        }
        Ok(d)
    }
}

/// The ledger operations a successful swap requires of the host, in
/// order: transfer `deposit` input units from the trader into the
/// input-side reserve (trader signs) **before** transferring `withdraw`
/// output units from the other reserve to the trader (pool signs), so
/// the pool is never observed to have paid out before being paid.
#[derive(Clone, Copy, Debug, PartialEq, Eq, Structural)]
pub struct SwapEffect {
    /// Input units, fee included, credited to the input-side reserve.
    pub deposit: u64,
    /// Output units debited from the output-side reserve.
    pub withdraw: u64,
}

/// Decides a Swap.
///
/// Inputs are as for the deposit decision, with the fresh reserve
/// balances of both sides.  Returns the exact effect the host must
/// apply, or the error of the first failing check:
///
/// - an expired order fails before anything else is examined;
/// - then the configuration record, the `Initialized` state, and the two
///   reserve addresses are checked in order;
/// - a trade whose output leg is zero is degenerate and rejected;
/// - an output below the caller's floor is rejected as slippage.
///
/// A successful swap never decreases the product of the two reserves:
/// the fee stays in the pool.
pub fn process(
    cfg_data: &[u8],
    owned: bool,
    now: i64,
    data: &SwapInstructionData,
    vault_x_address: &[u8; 32],
    vault_x_derived: &[u8; 32],
    vault_y_address: &[u8; 32],
    vault_y_derived: &[u8; 32],
    vault_x_amount: u64,
    vault_y_amount: u64,
) -> (r: Result<SwapEffect, AmmError>)
    requires
        data.wf(),
    ensures
        ({
            let gate = spec_instruction_gate(
                cfg_data@,
                owned,
                now,
                data.expiration,
                StateRequirement::MustBeInitialized,
                vault_x_address@ == vault_x_derived@,
                vault_y_address@ == vault_y_derived@,
            );
            let rin = if data.spec_is_x() { vault_x_amount } else { vault_y_amount };
            let rout = if data.spec_is_x() { vault_y_amount } else { vault_x_amount };
            match gate {
                Err(e) => r == Err::<SwapEffect, AmmError>(e),
                Ok(c) => {
                    let w = spec_swap_output(rin as int, rout as int, data.amount as int, c.fee as int);
                    if w == 0 {
                        r == Err::<SwapEffect, AmmError>(AmmError::DegenerateSwap)
                    } else if w < data.min {
                        r == Err::<SwapEffect, AmmError>(AmmError::SlippageExceeded)
                    } else {
                        r == Ok::<SwapEffect, AmmError>(SwapEffect {
                            deposit: data.amount,
                            withdraw: w as u64,
                        })
                    }
                },
            }
        }),
        r matches Ok(e) ==> ({
            let rin = if data.spec_is_x() { vault_x_amount } else { vault_y_amount };
            let rout = if data.spec_is_x() { vault_y_amount } else { vault_x_amount };
            0 < e.withdraw <= rout && e.deposit == data.amount && (rin + e.deposit) * (rout
                - e.withdraw) >= rin * rout
        }),
{
    let config = match instruction_gate(
        cfg_data,
        owned,
        now,
        data.expiration,
        StateRequirement::MustBeInitialized,
        vault_x_address,
        vault_x_derived,
        vault_y_address,
        vault_y_derived,
    ) {
        Ok(c) => c,
        Err(e) => {
            return Err(e);
        },
    };
    let (rin, rout) = if data.is_x() {
        (vault_x_amount, vault_y_amount)
    } else {
        (vault_y_amount, vault_x_amount)
    };
    let result = swap_amounts(rin, rout, data.amount, config.fee());
    if result.withdraw == 0 {
        return Err(AmmError::DegenerateSwap);
    }
    if result.withdraw < data.min {
        return Err(AmmError::SlippageExceeded);
    }
    proof {
        lemma_swap_product_nondecreasing(
            rin as int,
            rout as int,
            data.amount as int,
            config.fee as int,
        );
    }
    Ok(SwapEffect { deposit: result.deposit, withdraw: result.withdraw })
}

} // verus!
