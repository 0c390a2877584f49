//! The share math: rounding directions, failure conditions, and exact
//! values of the curve primitives.

use amm_core::error::AmmError;
use amm_core::math::{deposit_amounts, swap_amounts, withdraw_amounts, PairAmounts};

#[test]
fn deposit_amounts_round_up() {
    // 1001 * 250 / 500 = 500.5: the depositor owes 501, never 500.
    let a = deposit_amounts(1001, 1000, 500, 250).unwrap();
    assert_eq!(a, PairAmounts { x: 501, y: 500 });
}

#[test]
fn deposit_amounts_exact_share() {
    let a = deposit_amounts(1000, 2000, 500, 250).unwrap();
    assert_eq!(a, PairAmounts { x: 500, y: 1000 });
}

#[test]
fn deposit_amounts_need_outstanding_shares() {
    assert_eq!(deposit_amounts(1000, 1000, 0, 1), Err(AmmError::NoLiquidity));
}

#[test]
fn deposit_amounts_overflow() {
    assert_eq!(deposit_amounts(u64::MAX, 1, 1, 2), Err(AmmError::MathOverflow));
}

#[test]
fn withdraw_amounts_round_down() {
    // 1001 * 250 / 500 = 500.5: the withdrawer receives 500, never 501.
    let a = withdraw_amounts(1001, 1000, 500, 250).unwrap();
    assert_eq!(a, PairAmounts { x: 500, y: 500 });
}

#[test]
fn withdraw_amounts_need_outstanding_shares() {
    assert_eq!(withdraw_amounts(1000, 1000, 0, 1), Err(AmmError::NoLiquidity));
}

#[test]
fn withdraw_amounts_overflow_only_beyond_supply() {
    // Burning more shares than exist can leave the 64-bit range.
    assert_eq!(withdraw_amounts(u64::MAX, 1, 1, 3), Err(AmmError::MathOverflow));
    // Burning at most the supply never does.
    let a = withdraw_amounts(u64::MAX, u64::MAX, 7, 7).unwrap();
    assert_eq!(a, PairAmounts { x: u64::MAX, y: u64::MAX });
}

#[test]
fn swap_amounts_charge_fee_and_round_down() {
    // Effective input: 10_000 * 9970 / 10000 = 9970.
    // Output: 1_000_000 * 9970 / 1_009_970 = 9871 (rounded down).
    let r = swap_amounts(1_000_000, 1_000_000, 10_000, 30);
    assert_eq!(r.deposit, 10_000);
    assert_eq!(r.withdraw, 9871);
}

#[test]
fn swap_amounts_without_fee() {
    let r = swap_amounts(1_000_000, 1_000_000, 10_000, 0);
    assert_eq!(r.deposit, 10_000);
    assert_eq!(r.withdraw, 9900);
}

#[test]
fn swap_amounts_tiny_trade_buys_nothing() {
    // 1 * 9970 / 10000 = 0: the whole input is eaten by the fee.
    let r = swap_amounts(1_000_000, 1_000_000, 1, 30);
    assert_eq!(r.withdraw, 0);
}

#[test]
fn swap_amounts_output_never_exceeds_reserve() {
    let r = swap_amounts(1, 100, u64::MAX, 0);
    assert!(r.withdraw <= 100);
}
