//! The pool-configuration record and its byte-exact persisted layout.
//!
//! One `Config` exists per pool.  It names the trading pair, carries the
//! fee and the lifecycle state, and caches the derived-address bump byte.
//! The record is persisted as a fixed-size, non-padded little-endian byte
//! string; parsing is an explicit, length-checked boundary that also
//! checks the field invariants, never a reinterpretation of raw memory.

use vstd::prelude::*;
use vstd::bytes::{spec_u16_from_le_bytes, spec_u16_to_le_bytes, spec_u64_from_le_bytes,
    spec_u64_to_le_bytes, lemma_auto_spec_u16_to_from_le_bytes,
    lemma_auto_spec_u64_to_from_le_bytes, u16_to_le_bytes, u64_to_le_bytes};
use crate::codec::{read_key, read_u16_le, read_u64_le};
use crate::error::AmmError;

verus! {

/// Size in bytes of the persisted configuration record:
/// state(1) + seed(8) + authority(32) + mint_x(32) + mint_y(32) + fee(2) + bump(1).
pub const CONFIG_LEN: usize = 108;

/// Fees are in basis points and must stay below 100%.
pub const FEE_LIMIT: u16 = 10000;

/// The lifecycle of a pool.  Deposits and swaps need `Initialized`;
/// withdrawals are allowed in every state but `Disabled`, so providers can
/// always exit unless the pool is fully halted.
#[derive(Clone, Copy, Debug, PartialEq, Eq, Structural)]
pub enum AmmState {
    Uninitialized,
    Initialized,
    Disabled,
    WithdrawOnly,
}

impl AmmState {
    /// The byte this state is persisted as.
    pub open spec fn as_byte(self) -> u8 {
        match self {
            AmmState::Uninitialized => 0,
            AmmState::Initialized => 1,
            AmmState::Disabled => 2,
            AmmState::WithdrawOnly => 3,
        }
    }

    /// Converts the state to its persisted byte.
    pub fn to_u8(self) -> (b: u8)
        ensures
            b == self.as_byte(),
    {
        match self {
            AmmState::Uninitialized => 0,
            AmmState::Initialized => 1,
            AmmState::Disabled => 2,
            AmmState::WithdrawOnly => 3,
        }
    }
}

/// The persistent configuration of one pool.
///
/// The pool owns no tokens itself: its derived address is the signing
/// authority over the two reserves and the share mint, so this record is
/// the trust anchor every instruction re-validates against.
#[derive(Clone, Copy, Debug, PartialEq, Eq)]
pub struct Config {
    /// Lifecycle state, always one of the `AmmState` bytes.
    pub state: u8,
    /// Distinguishes pools that trade the same pair.
    pub seed: u64,
    /// Administrative key; all-zero means the pool is immutable.
    pub authority: [u8; 32],
    /// Key of the first reserve token type.  Immutable after creation.
    pub mint_x: [u8; 32],
    /// Key of the second reserve token type.  Immutable after creation.
    pub mint_y: [u8; 32],
    /// Swap fee in basis points, below `FEE_LIMIT`.
    pub fee: u16,
    /// Cached derived-address bump byte of the pool address.
    pub config_bump: [u8; 1],
}

/// The byte string a configuration is persisted as.
pub open spec fn spec_config_bytes(c: Config) -> Seq<u8> {
    seq![c.state] + spec_u64_to_le_bytes(c.seed) + c.authority@ + c.mint_x@ + c.mint_y@
        + spec_u16_to_le_bytes(c.fee) + seq![c.config_bump[0]]
}

/// What parsing a persisted configuration record yields: the record must be
/// exactly `CONFIG_LEN` bytes, its state byte must name a lifecycle state,
/// and its fee must be below `FEE_LIMIT`.
pub open spec fn spec_parse_config(s: Seq<u8>) -> Result<Config, AmmError> {
    if s.len() != CONFIG_LEN {
        Err(AmmError::InvalidAccountData)
    } else {
        let c = Config {
            state: s[0],
            seed: spec_u64_from_le_bytes(s.subrange(1, 9)),
            authority: c32(s.subrange(9, 41)),
            mint_x: c32(s.subrange(41, 73)),
            mint_y: c32(s.subrange(73, 105)),
            fee: spec_u16_from_le_bytes(s.subrange(105, 107)),
            config_bump: c1(s.subrange(107, 108)),
        };
        if c.state > AmmState::WithdrawOnly.as_byte() || c.fee >= FEE_LIMIT {
            Err(AmmError::InvalidAccountData)
        } else {
            Ok(c)
        }
    }
}

/// What loading a pool's configuration account yields: the record must be
/// the right size and the account owned by this program before any byte
/// of it is interpreted.
pub open spec fn spec_load_config(s: Seq<u8>, owned_by_program: bool) -> Result<Config, AmmError> {
    if s.len() != CONFIG_LEN {
        Err(AmmError::InvalidAccountData)
    } else if !owned_by_program {
        Err(AmmError::InvalidAccountOwner)
    } else {
        spec_parse_config(s)
    }
}

/// The 32-byte array whose view is `s`.
pub open spec fn c32(s: Seq<u8>) -> [u8; 32] {
    choose|a: [u8; 32]| a@ == s
}

/// The 1-byte array whose view is `s`.
pub open spec fn c1(s: Seq<u8>) -> [u8; 1] {
    choose|a: [u8; 1]| a@ == s
}

impl Config {
    /// Field invariant of a live record: the state byte names a lifecycle
    /// state and the fee is below 100%.
    pub open spec fn wf(self) -> bool {
        self.state <= AmmState::WithdrawOnly.as_byte() && self.fee < FEE_LIMIT
    }

    // ==================== Read helpers ====================

    /// Lifecycle state byte.
    pub fn state(&self) -> (r: u8)
        ensures
            r == self.state,
    {
        self.state
    }

    /// Pool seed.
    pub fn seed(&self) -> (r: u64)
        ensures
            r == self.seed,
    {
        self.seed
    }

    /// Administrative key; all-zero means none.
    pub fn authority(&self) -> (r: &[u8; 32])
        ensures
            r == &self.authority,
    {
        &self.authority
    }

    /// Key of the first reserve token type.
    pub fn mint_x(&self) -> (r: &[u8; 32])
        ensures
            r == &self.mint_x,
    {
        &self.mint_x
    }

    /// Key of the second reserve token type.
    pub fn mint_y(&self) -> (r: &[u8; 32])
        ensures
            r == &self.mint_y,
    {
        &self.mint_y
    }

    /// Swap fee in basis points.
    pub fn fee(&self) -> (r: u16)
        ensures
            r == self.fee,
    {
        self.fee
    }

    /// Cached derived-address bump byte.
    pub fn config_bump(&self) -> (r: [u8; 1])
        ensures
            r == self.config_bump,
    {
        self.config_bump
    }

    // ==================== Write helpers ====================

    /// Sets the lifecycle state, rejecting any byte beyond the enumeration:
    /// the state machine is closed.
    pub fn set_state(&mut self, state: u8) -> (r: Result<(), AmmError>)
        ensures
            state <= AmmState::WithdrawOnly.as_byte() ==> r == Ok::<(), AmmError>(())
                && *final(self) == (Config { state, ..*old(self) }),
            state > AmmState::WithdrawOnly.as_byte() ==> r
                == Err::<(), AmmError>(AmmError::InvalidAccountData) && *final(self) == *old(self),
    {
        if state > AmmState::WithdrawOnly.to_u8() {
            return Err(AmmError::InvalidAccountData);
        }
        self.state = state;
        Ok(())
    }

    /// Sets the pool seed.
    pub fn set_seed(&mut self, seed: u64)
        ensures
            *final(self) == (Config { seed, ..*old(self) }),
    {
        self.seed = seed;
    }

    /// Sets the administrative key.
    pub fn set_authority(&mut self, authority: [u8; 32])
        ensures
            *final(self) == (Config { authority, ..*old(self) }),
    {
        self.authority = authority;
    }

    /// Sets the first reserve token type.
    pub fn set_mint_x(&mut self, mint_x: [u8; 32])
        ensures
            *final(self) == (Config { mint_x, ..*old(self) }),
    {
        self.mint_x = mint_x;
    }

    /// Sets the second reserve token type.
    pub fn set_mint_y(&mut self, mint_y: [u8; 32])
        ensures
            *final(self) == (Config { mint_y, ..*old(self) }),
    {
        self.mint_y = mint_y;
    }

    /// Sets the fee, rejecting 100% or more.
    pub fn set_fee(&mut self, fee: u16) -> (r: Result<(), AmmError>)
        ensures
            fee < FEE_LIMIT ==> r == Ok::<(), AmmError>(()) && *final(self) == (Config {
                fee,
                ..*old(self)
            }),
            fee >= FEE_LIMIT ==> r == Err::<(), AmmError>(AmmError::InvalidAccountData)
                && *final(self) == *old(self),
    {
        if fee >= FEE_LIMIT {
            return Err(AmmError::InvalidAccountData);
        }
        self.fee = fee;
        Ok(())
    }

    /// Sets the cached bump byte.
    pub fn set_config_bump(&mut self, config_bump: [u8; 1])
        ensures
            *final(self) == (Config { config_bump, ..*old(self) }),
    {
        self.config_bump = config_bump;
    }

    /// Populates the whole record at creation, entering the `Initialized`
    /// state.  Fails exactly when the fee is 100% or more; the fee and the
    /// bump byte are then left untouched, and the caller aborts the
    /// instruction so the partial write is never persisted.
    pub fn set_inner(
        &mut self,
        seed: u64,
        authority: [u8; 32],
        mint_x: [u8; 32],
        mint_y: [u8; 32],
        fee: u16,
        config_bump: [u8; 1],
    ) -> (r: Result<(), AmmError>)
        ensures
            fee < FEE_LIMIT ==> r == Ok::<(), AmmError>(()) && *final(self) == (Config {
                state: AmmState::Initialized.as_byte(),
                seed,
                authority,
                mint_x,
                mint_y,
                fee,
                config_bump,
            }) && final(self).wf(),
            fee >= FEE_LIMIT ==> r == Err::<(), AmmError>(AmmError::InvalidAccountData)
                && *final(self) == (Config {
                state: AmmState::Initialized.as_byte(),
                seed,
                authority,
                mint_x,
                mint_y,
                ..*old(self)
            }),
    {
        self.set_state(AmmState::Initialized.to_u8())?;
        self.set_seed(seed);
        self.set_authority(authority);
        self.set_mint_x(mint_x);
        self.set_mint_y(mint_y);
        self.set_fee(fee)?;
        self.set_config_bump(config_bump);
        Ok(())
    }

    /// The administrative key, if one is set: all-zero bytes mean "no
    /// authority", making the pool immutable — a sentinel, not an error.
    pub fn has_authority(&self) -> (r: Option<[u8; 32]>)
        ensures
            (exists|j: int| 0 <= j < 32 && self.authority@[j] != 0) ==> r == Some(self.authority),
            (forall|j: int| 0 <= j < 32 ==> self.authority@[j] == 0) ==> r
                == None::<[u8; 32]>,
    {
        let mut i: usize = 0;
        while i < 32
            invariant
                i <= 32,
                forall|j: int| 0 <= j < i ==> self.authority@[j] == 0,
            decreases 32 - i,
        {
            if self.authority[i] != 0 {
                return Some(self.authority);
            }
            i += 1;
        }
        None
    }

    // ==================== Persistence ====================

    /// Encodes the record into its persisted byte string.
    pub fn to_bytes(&self) -> (out: Vec<u8>)
        ensures
            out@ == spec_config_bytes(*self),
            out@.len() == CONFIG_LEN,
    {
        let mut out: Vec<u8> = Vec::new();
        out.push(self.state);
        let mut seed_bytes = u64_to_le_bytes(self.seed);
        out.append(&mut seed_bytes);
        push_key(&mut out, &self.authority);
        push_key(&mut out, &self.mint_x);
        push_key(&mut out, &self.mint_y);
        let mut fee_bytes = u16_to_le_bytes(self.fee);
        out.append(&mut fee_bytes);
        out.push(self.config_bump[0]);
        proof {
            lemma_auto_spec_u64_to_from_le_bytes();
            lemma_auto_spec_u16_to_from_le_bytes();
            assert(out@ =~= spec_config_bytes(*self));
        }
        out
    }

    /// Parses a persisted record, validating its size and field invariants
    /// before interpreting any byte.
    pub fn try_from_bytes(data: &[u8]) -> (r: Result<Config, AmmError>)
        ensures
            r == spec_parse_config(data@),
            r matches Ok(c) ==> c.wf() && spec_config_bytes(c) == data@,
    {
        let n = data.len();
        if n != CONFIG_LEN {
            return Err(AmmError::InvalidAccountData);
        }
        let state = data[0];
        let seed = read_u64_le(data, 1);
        let authority = read_key(data, 9);
        let mint_x = read_key(data, 41);
        let mint_y = read_key(data, 73);
        let fee = read_u16_le(data, 105);
        let config_bump: [u8; 1] = [data[107]];
        let c = Config { state, seed, authority, mint_x, mint_y, fee, config_bump };
        proof {
            lemma_c32(data@.subrange(9, 41), authority);
            lemma_c32(data@.subrange(41, 73), mint_x);
            lemma_c32(data@.subrange(73, 105), mint_y);
            assert(config_bump@ =~= data@.subrange(107, 108));
            lemma_c1(data@.subrange(107, 108), config_bump);
        }
        if state > AmmState::WithdrawOnly.to_u8() || fee >= FEE_LIMIT {
            return Err(AmmError::InvalidAccountData);
        }
        proof {
            lemma_auto_spec_u64_to_from_le_bytes();
            lemma_auto_spec_u16_to_from_le_bytes();
            assert(spec_config_bytes(c) =~= data@);
        }
        Ok(c)
    }

    /// Parses a pool's configuration account: the record must be the right
    /// size and the account must be owned by this program, or nothing in it
    /// is trusted.  The caller states ownership, having compared the
    /// account's owner against the program's own identity.
    pub fn load(data: &[u8], owned_by_program: bool) -> (r: Result<Config, AmmError>)
        ensures
            r == spec_load_config(data@, owned_by_program),
            r matches Ok(c) ==> c.wf(),
    {
        let n = data.len();
        if n != CONFIG_LEN {
            return Err(AmmError::InvalidAccountData);
        }
        if !owned_by_program {
            return Err(AmmError::InvalidAccountOwner);
        }
        Config::try_from_bytes(data)
    }
}

/// There is exactly one 32-byte array with a given 32-byte view.
pub proof fn lemma_c32(s: Seq<u8>, a: [u8; 32])
    requires
        a@ == s,
    ensures
        c32(s) == a,
{
    let w = c32(s);
    assert(w@ == s);
    assert(forall|i: int| 0 <= i < 32 ==> w@[i] == a@[i]);
    vstd::array::axiom_array_ext_equal(w, a);
    assert(w =~= a);
}

/// There is exactly one 1-byte array with a given 1-byte view.
pub proof fn lemma_c1(s: Seq<u8>, a: [u8; 1])
    requires
        a@ == s,
    ensures
        c1(s) == a,
{
    let w = c1(s);
    assert(w@ == s);
    assert(forall|i: int| 0 <= i < 1 ==> w@[i] == a@[i]);
    vstd::array::axiom_array_ext_equal(w, a);
    assert(w =~= a);
}

/// Appends a 32-byte key to a byte string being built.
fn push_key(out: &mut Vec<u8>, key: &[u8; 32])
    ensures
        final(out)@ == old(out)@ + key@,
{
    let mut i: usize = 0;
    while i < 32
        invariant
            i <= 32,
            out@.len() == old(out)@.len() + i,
            out@ == old(out)@ + key@.subrange(0, i as int),
        decreases 32 - i,
    {
        out.push(key[i]);
        assert(out@ =~= old(out)@ + key@.subrange(0, i + 1));
        i += 1;
    }
    assert(key@.subrange(0, 32) =~= key@);
}

/// A well-formed record survives the encode/parse round trip unchanged.
pub proof fn lemma_config_round_trip(c: Config)
    requires
        c.wf(),
    ensures
        spec_parse_config(spec_config_bytes(c)) == Ok::<Config, AmmError>(c),
{
    lemma_auto_spec_u64_to_from_le_bytes();
    lemma_auto_spec_u16_to_from_le_bytes();
    let s = spec_config_bytes(c);
    assert(s.len() == CONFIG_LEN);
    assert(s.subrange(1, 9) =~= spec_u64_to_le_bytes(c.seed));
    assert(s.subrange(9, 41) =~= c.authority@);
    assert(s.subrange(41, 73) =~= c.mint_x@);
    assert(s.subrange(73, 105) =~= c.mint_y@);
    assert(s.subrange(105, 107) =~= spec_u16_to_le_bytes(c.fee));
    assert(s.subrange(107, 108) =~= c.config_bump@);
    lemma_c32(s.subrange(9, 41), c.authority);
    lemma_c32(s.subrange(41, 73), c.mint_x);
    lemma_c32(s.subrange(73, 105), c.mint_y);
    lemma_c1(s.subrange(107, 108), c.config_bump);
    assert(s[0] == c.state);
    assert(c.config_bump@[0] == c.config_bump[0]);
}

} // verus!
