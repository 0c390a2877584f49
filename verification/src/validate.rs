//! The validation discipline shared by the user-facing instructions.
//!
//! Every account reaching a handler may be adversarially substituted, so
//! nothing is trusted until re-checked: the order's expiry comes first,
//! then the configuration record (size, owner, fields), then the pool's
//! lifecycle state, then the two reserve accounts against their derived
//! addresses.  The first failing check decides the error.

use vstd::prelude::*;
use crate::codec::keys_equal;
use crate::error::AmmError;
use crate::state::{spec_load_config, AmmState, Config};

verus! {

/// Which lifecycle states an instruction tolerates.
#[derive(Clone, Copy, Debug, PartialEq, Eq, Structural)]
pub enum StateRequirement {
    /// Deposits and swaps run only against a live pool.
    MustBeInitialized,
    /// Withdrawals run unless the pool is fully halted.
    MustNotBeDisabled,
}

/// Whether a pool in lifecycle state `state` satisfies `req`.
pub open spec fn spec_state_allows(state: u8, req: StateRequirement) -> bool {
    match req {
        StateRequirement::MustBeInitialized => state == AmmState::Initialized.as_byte(),
        StateRequirement::MustNotBeDisabled => state != AmmState::Disabled.as_byte(),
    }
}

/// The common validation gate, in the order the checks run: expiry,
/// configuration record, lifecycle state, reserve X address, reserve Y
/// address.  Yields the parsed configuration when every check passes.
pub open spec fn spec_instruction_gate(
    cfg: Seq<u8>,
    owned: bool,
    now: i64,
    expiration: i64,
    req: StateRequirement,
    vault_x_ok: bool,
    vault_y_ok: bool,
) -> Result<Config, AmmError> {
    if now >= expiration {
        Err(AmmError::OrderExpired)
    } else {
        match spec_load_config(cfg, owned) {
            Err(e) => Err(e),
            Ok(c) => if !spec_state_allows(c.state, req) {
                Err(AmmError::InvalidState)
            } else if !vault_x_ok {
                Err(AmmError::InvalidVaultAddress)
            } else if !vault_y_ok {
                Err(AmmError::InvalidVaultAddress)
            } else {
                Ok(c)
            },
        }
    }
}

/// Runs the common validation gate.
///
/// `vault_x_derived` and `vault_y_derived` are the expected associated
/// addresses of the two reserves, freshly recomputed by the host out of
/// the pool address, the token-ledger program and the respective mint;
/// a reserve account passes only when its address equals the expected
/// one byte for byte.  `owned` states whether the configuration account
/// is owned by this program.
pub fn instruction_gate(
    cfg_data: &[u8],
    owned: bool,
    now: i64,
    expiration: i64,
    req: StateRequirement,
    vault_x_address: &[u8; 32],
    vault_x_derived: &[u8; 32],
    vault_y_address: &[u8; 32],
    vault_y_derived: &[u8; 32],
) -> (r: Result<Config, AmmError>)
    ensures
        r == spec_instruction_gate(
            cfg_data@,
            owned,
            now,
            expiration,
            req,
            vault_x_address@ == vault_x_derived@,
            vault_y_address@ == vault_y_derived@,
        ),
        r matches Ok(c) ==> c.wf(),
{
    if now >= expiration {
        return Err(AmmError::OrderExpired);
    }
    let config = match Config::load(cfg_data, owned) {
        Ok(c) => c,
        Err(e) => {
            return Err(e);
        },
    };
    let state_ok = match req {
        StateRequirement::MustBeInitialized => config.state() == AmmState::Initialized.to_u8(),
        StateRequirement::MustNotBeDisabled => config.state() != AmmState::Disabled.to_u8(),
    };
    if !state_ok {
        return Err(AmmError::InvalidState);
    }
    if !keys_equal(vault_x_address, vault_x_derived) {
        return Err(AmmError::InvalidVaultAddress);
    }
    if !keys_equal(vault_y_address, vault_y_derived) {
        return Err(AmmError::InvalidVaultAddress);
    }
    Ok(config)
}

} // verus!
