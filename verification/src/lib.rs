//! Verified accounting core of a two-token constant-product liquidity pool.
//!
//! The pool trades two token types against a shared reserve pair and mints a
//! share token against deposits.  Everything that decides value movement —
//! payload decoding, the pool-configuration record and its byte layout, the
//! share math and the swap curve, and the validation discipline around them —
//! lives here with a proved contract.  The host glue that reads accounts,
//! derives addresses and issues token-ledger operations stays outside and
//! only carries out the effects this crate computes.

use vstd::prelude::*;

pub mod codec;
pub mod deposit;
pub mod error;
pub mod initialize;
pub mod laws;
pub mod math;
pub mod state;
pub mod swap;
pub mod validate;
pub mod withdraw;

verus! {

} // verus!
