//! The Initialize instruction: create a pool's configuration record.
//!
//! Payload layout (little-endian, no padding): `seed`(8) · `fee`(2) ·
//! `mint_x`(32) · `mint_y`(32) · `config_bump`(1) · `lp_bump`(1) ·
//! optionally `authority`(32).  The short form omits the authority, which
//! then defaults to all-zero: an immutable pool.
//!
//! The host creates the configuration account at its derived address and
//! the share mint at its own, initializes the mint with
//! `LP_MINT_DECIMALS` decimals and the pool as mint authority, and
//! persists the record this module decides.  No reserve funds move here.

use vstd::prelude::*;
use vstd::bytes::{spec_u16_from_le_bytes, spec_u64_from_le_bytes};
use crate::codec::{read_key, read_u16_le, read_u64_le};
use crate::error::AmmError;
use crate::state::{c1, c32, lemma_c1, lemma_c32, AmmState, Config, FEE_LIMIT};

verus! {

/// Length in bytes of an initialize payload that carries an authority.
pub const INITIALIZE_DATA_LEN_WITH_AUTHORITY: usize = 108;

/// Length in bytes of an initialize payload without the trailing
/// authority key.
pub const INITIALIZE_DATA_LEN: usize = 76;

/// Number of decimals of the share mint, fixed for every pool.
pub const LP_MINT_DECIMALS: u8 = 6;

/// The decoded payload of an Initialize.
#[derive(Clone, Copy, Debug, PartialEq, Eq)]
pub struct InitializeInstructionData {
    /// Distinguishes pools that trade the same pair.
    pub seed: u64,
    /// Swap fee in basis points; validated against `FEE_LIMIT` when the
    /// record is populated.
    pub fee: u16,
    /// Key of the first reserve token type.
    pub mint_x: [u8; 32],
    /// Key of the second reserve token type.
    pub mint_y: [u8; 32],
    /// Derived-address bump byte of the pool address.
    pub config_bump: [u8; 1],
    /// Derived-address bump byte of the share mint.
    pub lp_bump: [u8; 1],
    /// Administrative key; all-zero means an immutable pool.
    pub authority: [u8; 32],
}

/// The all-zero key: the "no authority" sentinel.
pub open spec fn spec_zero_key() -> [u8; 32] {
    c32(Seq::new(32, |i: int| 0u8))
}

/// What decoding an initialize payload yields: the long form carries an
/// authority, the short form zero-fills it, and any other length is
/// rejected.
pub open spec fn spec_parse_initialize(s: Seq<u8>) -> Result<
    InitializeInstructionData,
    AmmError,
> {
    if s.len() == INITIALIZE_DATA_LEN_WITH_AUTHORITY {
        Ok(InitializeInstructionData {
            seed: spec_u64_from_le_bytes(s.subrange(0, 8)),
            fee: spec_u16_from_le_bytes(s.subrange(8, 10)),
            mint_x: c32(s.subrange(10, 42)),
            mint_y: c32(s.subrange(42, 74)),
            config_bump: c1(s.subrange(74, 75)),
            lp_bump: c1(s.subrange(75, 76)),
            authority: c32(s.subrange(76, 108)),
        })
    } else if s.len() == INITIALIZE_DATA_LEN {
        Ok(InitializeInstructionData {
            seed: spec_u64_from_le_bytes(s.subrange(0, 8)),
            fee: spec_u16_from_le_bytes(s.subrange(8, 10)),
            mint_x: c32(s.subrange(10, 42)),
            mint_y: c32(s.subrange(42, 74)),
            config_bump: c1(s.subrange(74, 75)),
            lp_bump: c1(s.subrange(75, 76)),
            authority: spec_zero_key(),
        })
    } else {
        Err(AmmError::InvalidInstructionData)
    }
}

impl InitializeInstructionData {
    /// Decodes an initialize payload, accepting exactly the two layouts
    /// and zero-filling the missing authority of the short one.
    pub fn try_from_bytes(data: &[u8]) -> (r: Result<InitializeInstructionData, AmmError>)
        ensures
            r == spec_parse_initialize(data@),
    {
        let n = data.len();
        if n != INITIALIZE_DATA_LEN_WITH_AUTHORITY && n != INITIALIZE_DATA_LEN {
            return Err(AmmError::InvalidInstructionData);
        }
        let seed = read_u64_le(data, 0);
        let fee = read_u16_le(data, 8);
        let mint_x = read_key(data, 10);
        let mint_y = read_key(data, 42);
        let config_bump: [u8; 1] = [data[74]];
        let lp_bump: [u8; 1] = [data[75]];
        let authority: [u8; 32] = if n == INITIALIZE_DATA_LEN_WITH_AUTHORITY {
            read_key(data, 76)
        } else {
            [0u8; 32]
        };
        proof {
            lemma_c32(data@.subrange(10, 42), mint_x);
            lemma_c32(data@.subrange(42, 74), mint_y);
            assert(config_bump@ =~= data@.subrange(74, 75));
            lemma_c1(data@.subrange(74, 75), config_bump);
            assert(lp_bump@ =~= data@.subrange(75, 76));
            lemma_c1(data@.subrange(75, 76), lp_bump);
            if data@.len() == INITIALIZE_DATA_LEN_WITH_AUTHORITY {
                lemma_c32(data@.subrange(76, 108), authority);
            } else {
                assert(authority@ =~= Seq::new(32, |i: int| 0u8));
                lemma_c32(Seq::new(32, |i: int| 0u8), authority);
            }
        }
        Ok(InitializeInstructionData { seed, fee, mint_x, mint_y, config_bump, lp_bump, authority })
    }
}

/// Decides an Initialize: the configuration record to persist for a new
/// pool.  The record enters the `Initialized` state, copies the payload's
/// identity fields, and is rejected exactly when the fee is 100% or more.
/// Whether either account already exists at its derived address is for
/// the host's account-creation step to reject.
pub fn process(data: &InitializeInstructionData) -> (r: Result<Config, AmmError>)
    ensures
        data.fee < FEE_LIMIT ==> r == Ok::<Config, AmmError>(Config {
            state: AmmState::Initialized.as_byte(),
            seed: data.seed,
            authority: data.authority,
            mint_x: data.mint_x,
            mint_y: data.mint_y,
            fee: data.fee,
            config_bump: data.config_bump,
        }),
        data.fee >= FEE_LIMIT ==> r == Err::<Config, AmmError>(AmmError::InvalidAccountData),
        r matches Ok(c) ==> c.wf(),
{
    let mut config = Config {
        state: AmmState::Uninitialized.to_u8(),
        seed: 0,
        authority: [0u8; 32],
        mint_x: [0u8; 32],
        mint_y: [0u8; 32],
        fee: 0,
        config_bump: [0u8],
    };
    config.set_inner(
        data.seed,
        data.authority,
        data.mint_x,
        data.mint_y,
        data.fee,
        data.config_bump,
    )?;
    Ok(config)
}

} // verus!
