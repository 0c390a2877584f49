//! The instruction handlers end to end: validation order, state gating,
//! slippage, expiry, and the pool-level accounting properties.

use amm_core::deposit::{self, DepositEffect, DepositInstructionData};
use amm_core::error::AmmError;
use amm_core::initialize::{self, InitializeInstructionData};
use amm_core::state::Config;
use amm_core::swap::{self, SwapInstructionData};
use amm_core::withdraw::{self, WithdrawInstructionData};

const VAULT_X: [u8; 32] = [3; 32];
const VAULT_Y: [u8; 32] = [4; 32];
const NOW: i64 = 1_000;
const LATER: i64 = 2_000;

fn live_config() -> Config {
    Config {
        state: 1,
        seed: 42,
        authority: [0; 32],
        mint_x: [1; 32],
        mint_y: [2; 32],
        fee: 30,
        config_bump: [254],
    }
}

fn deposit_data(amount: u64, max_x: u64, max_y: u64, expiration: i64) -> DepositInstructionData {
    DepositInstructionData { amount, max_x, max_y, expiration }
}

fn run_deposit(
    cfg: &Config,
    data: &DepositInstructionData,
    rx: u64,
    ry: u64,
    supply: u64,
) -> Result<DepositEffect, AmmError> {
    let bytes = cfg.to_bytes();
    deposit::process(
        &bytes, true, NOW, data, &VAULT_X, &VAULT_X, &VAULT_Y, &VAULT_Y, rx, ry, supply,
    )
}

#[test]
fn first_deposit_is_deterministic() {
    // An empty pool takes the caller's ceilings literally as seed liquidity.
    let e = run_deposit(&live_config(), &deposit_data(500, 1000, 2000, LATER), 0, 0, 0).unwrap();
    assert_eq!(e, DepositEffect { x: 1000, y: 2000, shares: 500 });
}

#[test]
fn proportional_deposit_rounds_up() {
    // 1001 * 250 / 500 rounds up to 501 on the X leg.
    let e = run_deposit(&live_config(), &deposit_data(250, 600, 600, LATER), 1001, 1000, 500)
        .unwrap();
    assert_eq!(e, DepositEffect { x: 501, y: 500, shares: 250 });
}

#[test]
fn deposit_slippage_ceiling_is_enforced() {
    // The X leg needs 501 units but the depositor only allows 500.
    let r = run_deposit(&live_config(), &deposit_data(250, 500, 600, LATER), 1001, 1000, 500);
    assert_eq!(r, Err(AmmError::SlippageExceeded));
}

#[test]
fn deposit_expired_order_fails_first() {
    // Expiry is checked before anything else: even an unparseable,
    // mis-owned configuration account is not looked at.
    let garbage = [0u8; 3];
    let data = deposit_data(1, 1, 1, NOW);
    let r = deposit::process(
        &garbage, false, NOW, &data, &VAULT_X, &[9; 32], &VAULT_Y, &VAULT_Y, 0, 0, 0,
    );
    assert_eq!(r, Err(AmmError::OrderExpired));
}

#[test]
fn deposit_requires_initialized_state() {
    let mut cfg = live_config();
    cfg.set_state(3).unwrap(); // withdraw-only
    let r = run_deposit(&cfg, &deposit_data(1, 1, 1, LATER), 0, 0, 0);
    assert_eq!(r, Err(AmmError::InvalidState));
}

#[test]
fn deposit_rejects_mismatched_vault() {
    let cfg = live_config().to_bytes();
    let data = deposit_data(1, 1, 1, LATER);
    let r = deposit::process(
        &cfg, true, NOW, &data, &VAULT_X, &[9; 32], &VAULT_Y, &VAULT_Y, 0, 0, 0,
    );
    assert_eq!(r, Err(AmmError::InvalidVaultAddress));
    let r = deposit::process(
        &cfg, true, NOW, &data, &VAULT_X, &VAULT_X, &VAULT_Y, &[9; 32], 0, 0, 0,
    );
    assert_eq!(r, Err(AmmError::InvalidVaultAddress));
}

#[test]
fn deposit_rejects_unowned_or_malformed_config() {
    let cfg = live_config().to_bytes();
    let data = deposit_data(1, 1, 1, LATER);
    let r = deposit::process(
        &cfg, false, NOW, &data, &VAULT_X, &VAULT_X, &VAULT_Y, &VAULT_Y, 0, 0, 0,
    );
    assert_eq!(r, Err(AmmError::InvalidAccountOwner));
    let r = deposit::process(
        &cfg[..100], true, NOW, &data, &VAULT_X, &VAULT_X, &VAULT_Y, &VAULT_Y, 0, 0, 0,
    );
    assert_eq!(r, Err(AmmError::InvalidAccountData));
}

#[test]
fn deposit_into_donated_reserves_has_no_price() {
    // Reserves exist but no shares are outstanding: no proportional price.
    let r = run_deposit(&live_config(), &deposit_data(1, 10, 10, LATER), 5, 0, 0);
    assert_eq!(r, Err(AmmError::NoLiquidity));
}

#[test]
fn deposit_overflow_is_math_error() {
    let r = run_deposit(
        &live_config(),
        &deposit_data(2, u64::MAX, u64::MAX, LATER),
        u64::MAX,
        1,
        1,
    );
    assert_eq!(r, Err(AmmError::MathOverflow));
}

fn withdraw_data(amount: u64, min_x: u64, min_y: u64, expiration: i64) -> WithdrawInstructionData {
    WithdrawInstructionData { amount, min_x, min_y, expiration }
}

fn run_withdraw(
    cfg: &Config,
    data: &WithdrawInstructionData,
    rx: u64,
    ry: u64,
    supply: u64,
) -> Result<withdraw::WithdrawEffect, AmmError> {
    let bytes = cfg.to_bytes();
    withdraw::process(
        &bytes, true, NOW, data, &VAULT_X, &VAULT_X, &VAULT_Y, &VAULT_Y, rx, ry, supply,
    )
}

#[test]
fn full_exit_returns_both_reserves_whole() {
    // Burning the entire supply drains both reserves exactly, whatever
    // rounding earlier partial withdrawals produced.
    let e = run_withdraw(&live_config(), &withdraw_data(500, 0, 0, LATER), 1003, 997, 500)
        .unwrap();
    assert_eq!(e.x, 1003);
    assert_eq!(e.y, 997);
    assert_eq!(e.shares, 500);
    // Applying the effect leaves both reserves at zero.
    assert_eq!(1003 - e.x, 0);
    assert_eq!(997 - e.y, 0);
}

#[test]
fn full_exit_still_respects_slippage_floors() {
    // Even when burning the entire supply, a payout below the caller's
    // floor — say after the X reserve was drained by a swap — is refused.
    let r = run_withdraw(&live_config(), &withdraw_data(500, 1004, 0, LATER), 1003, 997, 500);
    assert_eq!(r, Err(AmmError::SlippageExceeded));
    let r = run_withdraw(&live_config(), &withdraw_data(500, 0, 998, LATER), 1003, 997, 500);
    assert_eq!(r, Err(AmmError::SlippageExceeded));
}

#[test]
fn withdraw_from_empty_supply_has_no_price() {
    let r = run_withdraw(&live_config(), &withdraw_data(5, 0, 0, LATER), 100, 100, 0);
    assert_eq!(r, Err(AmmError::NoLiquidity));
}

#[test]
fn partial_withdraw_rounds_down() {
    let e = run_withdraw(&live_config(), &withdraw_data(250, 0, 0, LATER), 1001, 1000, 500)
        .unwrap();
    assert_eq!(e.x, 500);
    assert_eq!(e.y, 500);
}

#[test]
fn withdraw_slippage_floor_is_enforced() {
    // The X leg yields 500 but the withdrawer demands at least 501.
    let r = run_withdraw(&live_config(), &withdraw_data(250, 501, 0, LATER), 1001, 1000, 500);
    assert_eq!(r, Err(AmmError::SlippageExceeded));
}

#[test]
fn withdraw_expired_order_fails_first() {
    let garbage = [0u8; 3];
    let data = withdraw_data(1, 0, 0, NOW - 1);
    let r = withdraw::process(
        &garbage, false, NOW, &data, &VAULT_X, &[9; 32], &VAULT_Y, &VAULT_Y, 0, 0, 0,
    );
    assert_eq!(r, Err(AmmError::OrderExpired));
}

#[test]
fn withdraw_allowed_when_withdraw_only() {
    let mut cfg = live_config();
    cfg.set_state(3).unwrap();
    let e = run_withdraw(&cfg, &withdraw_data(500, 0, 0, LATER), 1000, 1000, 500).unwrap();
    assert_eq!(e.x, 1000);
}

#[test]
fn withdraw_blocked_when_disabled() {
    let mut cfg = live_config();
    cfg.set_state(2).unwrap();
    let r = run_withdraw(&cfg, &withdraw_data(500, 0, 0, LATER), 1000, 1000, 500);
    assert_eq!(r, Err(AmmError::InvalidState));
}

fn swap_data(is_x: u8, amount: u64, min: u64, expiration: i64) -> SwapInstructionData {
    SwapInstructionData { is_x, amount, min, expiration }
}

fn run_swap(
    cfg: &Config,
    data: &SwapInstructionData,
    rx: u64,
    ry: u64,
) -> Result<swap::SwapEffect, AmmError> {
    let bytes = cfg.to_bytes();
    swap::process(&bytes, true, NOW, data, &VAULT_X, &VAULT_X, &VAULT_Y, &VAULT_Y, rx, ry)
}

#[test]
fn fee_accrual_scenario() {
    // A 0.3% pool at (1_000_000, 1_000_000) swapping 10_000 of X yields
    // strictly less than the fee-less 9_900, and grows the invariant.
    let e = run_swap(&live_config(), &swap_data(1, 10_000, 1, LATER), 1_000_000, 1_000_000)
        .unwrap();
    assert_eq!(e.deposit, 10_000);
    assert_eq!(e.withdraw, 9_871);
    assert!(e.withdraw < 9_900);
    let before: u128 = 1_000_000u128 * 1_000_000u128;
    let after: u128 = (1_000_000u128 + 10_000) * (1_000_000u128 - e.withdraw as u128);
    assert!(after > before);
}

#[test]
fn swap_direction_y_to_x() {
    // Same trade in the other direction against mirrored reserves.
    let e = run_swap(&live_config(), &swap_data(0, 10_000, 1, LATER), 2_000_000, 1_000_000)
        .unwrap();
    assert_eq!(e.deposit, 10_000);
    // rin = ry = 1_000_000, rout = rx = 2_000_000:
    // 2_000_000 * 9_970 / 1_009_970 rounds down to 19_743.
    assert_eq!(e.withdraw, 19_743);
}

#[test]
fn swap_slippage_floor_is_enforced() {
    let r = run_swap(
        &live_config(),
        &swap_data(1, 10_000, 9_872, LATER),
        1_000_000,
        1_000_000,
    );
    assert_eq!(r, Err(AmmError::SlippageExceeded));
}

#[test]
fn swap_too_small_to_buy_anything_is_degenerate() {
    let r = run_swap(&live_config(), &swap_data(1, 1, 1, LATER), 1_000_000, 1_000_000);
    assert_eq!(r, Err(AmmError::DegenerateSwap));
}

#[test]
fn swap_expired_order_fails_first() {
    let garbage = [0u8; 3];
    let data = swap_data(1, 1, 1, -7);
    let r = swap::process(
        &garbage, false, NOW, &data, &VAULT_X, &[9; 32], &VAULT_Y, &VAULT_Y, 0, 0,
    );
    assert_eq!(r, Err(AmmError::OrderExpired));
}

#[test]
fn swap_requires_initialized_state() {
    let mut cfg = live_config();
    cfg.set_state(3).unwrap();
    let r = run_swap(&cfg, &swap_data(1, 10_000, 1, LATER), 1_000_000, 1_000_000);
    assert_eq!(r, Err(AmmError::InvalidState));
}

#[test]
fn swap_product_never_decreases_across_a_run() {
    // A run of alternating valid swaps: the invariant is monotone.
    let cfg = live_config();
    let mut rx: u64 = 1_000_000;
    let mut ry: u64 = 1_000_000;
    let mut product: u128 = rx as u128 * ry as u128;
    for (dir, amount) in [(1u8, 10_000u64), (0, 25_000), (1, 500), (0, 99_999), (1, 123_456)] {
        let e = run_swap(&cfg, &swap_data(dir, amount, 1, LATER), rx, ry).unwrap();
        if dir == 1 {
            rx += e.deposit;
            ry -= e.withdraw;
        } else {
            ry += e.deposit;
            rx -= e.withdraw;
        }
        let next: u128 = rx as u128 * ry as u128;
        assert!(next >= product);
        product = next;
    }
}

#[test]
fn deposit_then_withdraw_never_profits() {
    // Depositing and immediately withdrawing the same shares returns at
    // most what was contributed, and at most one unit less per leg.
    let cfg = live_config();
    for (rx, ry, supply, shares) in
        [(1001u64, 999u64, 500u64, 250u64), (3, 7, 11, 2), (123_456, 654_321, 999, 37)]
    {
        let d = run_deposit(&cfg, &deposit_data(shares, u64::MAX, u64::MAX, LATER), rx, ry, supply)
            .unwrap();
        let w = run_withdraw(
            &cfg,
            &withdraw_data(shares, 0, 0, LATER),
            rx + d.x,
            ry + d.y,
            supply + shares,
        )
        .unwrap();
        assert!(w.x <= d.x && d.x - w.x <= 1);
        assert!(w.y <= d.y && d.y - w.y <= 1);
    }
}

#[test]
fn initialize_builds_the_record() {
    let data = InitializeInstructionData {
        seed: 42,
        fee: 30,
        mint_x: [1; 32],
        mint_y: [2; 32],
        config_bump: [254],
        lp_bump: [253],
        authority: [0; 32],
    };
    let c = initialize::process(&data).unwrap();
    assert_eq!(c.state(), 1);
    assert_eq!(c.seed(), 42);
    assert_eq!(c.fee(), 30);
    assert_eq!(c.mint_x(), &[1; 32]);
    assert_eq!(c.mint_y(), &[2; 32]);
    assert_eq!(c.config_bump(), [254]);
    assert_eq!(c.has_authority(), None);
}

#[test]
fn initialize_rejects_full_fee() {
    let data = InitializeInstructionData {
        seed: 42,
        fee: 10_000,
        mint_x: [1; 32],
        mint_y: [2; 32],
        config_bump: [254],
        lp_bump: [253],
        authority: [0; 32],
    };
    assert_eq!(initialize::process(&data), Err(AmmError::InvalidAccountData));
}
