//! Share math and the constant-product swap curve.
//!
//! All pricing is exact integer arithmetic over the pool's two reserves and
//! the outstanding share supply.  The rounding rule is fixed and documented
//! here once: a deposit rounds the required reserve units **up** (the
//! depositor never contributes less than their fair share, protecting the
//! existing holders from dilution) and a withdrawal rounds the returned
//! units **down** (the withdrawer never receives more than their exact
//! share, favouring the remaining pool).  A swap charges its fee on the
//! input leg and rounds the output down, so the reserve product never
//! decreases.

use vstd::prelude::*;
use vstd::arithmetic::div_mod::{lemma_fundamental_div_mod, lemma_mod_bound};
use crate::error::AmmError;
use crate::state::FEE_LIMIT;

verus! {

/// The reserve legs of a deposit or withdrawal.
#[derive(Clone, Copy, Debug, PartialEq, Eq, Structural)]
pub struct PairAmounts {
    /// Units of token X.
    pub x: u64,
    /// Units of token Y.
    pub y: u64,
}

/// The two legs of a swap: what the trader pays in and what the pool pays
/// out.  The fee is not split off — it stays inside the reserves.
#[derive(Clone, Copy, Debug, PartialEq, Eq, Structural)]
pub struct SwapResult {
    /// Input units, fee included, added to the input-side reserve.
    pub deposit: u64,
    /// Output units taken from the output-side reserve.
    pub withdraw: u64,
}

/// `a / b` rounded towards positive infinity, for `a >= 0 < b`.
pub open spec fn ceil_div(a: int, b: int) -> int {
    (a + b - 1) / b
}

/// Reserve units a deposit of `shares` new shares must contribute for one
/// reserve leg, rounded up: the ceiling of `reserve * shares / supply`.
pub open spec fn spec_deposit_leg(reserve: int, supply: int, shares: int) -> int {
    ceil_div(reserve * shares, supply)
}

/// Reserve units a withdrawal of `shares` shares returns for one reserve
/// leg, rounded down: the floor of `reserve * shares / supply`.
pub open spec fn spec_withdraw_leg(reserve: int, supply: int, shares: int) -> int {
    reserve * shares / supply
}

/// The portion of a swap input that buys output after the fee, in basis
/// points, rounded down.
pub open spec fn spec_amount_after_fee(amount: int, fee: int) -> int {
    amount * (10000 - fee) / 10000
}

/// Output units of a swap: the input reserve grows by the effective input,
/// and the output shrinks by at most the proportional amount, rounded down
/// so the reserve product cannot decrease.
pub open spec fn spec_swap_output(rin: int, rout: int, amount: int, fee: int) -> int {
    let aff = spec_amount_after_fee(amount, fee);
    if rin + aff == 0 {
        0
    } else {
        rout * aff / (rin + aff)
    }
}

/// Floor division brackets its argument: `d * (n / d)` is within `d` below `n`.
proof fn lemma_div_bounds(n: int, d: int)
    requires
        d > 0,
    ensures
        d * (n / d) <= n,
        n < d * (n / d) + d,
{
    lemma_fundamental_div_mod(n, d);
    lemma_mod_bound(n, d);
}

/// If `n <= b * d` then `n / d <= b`.
proof fn lemma_div_le(n: int, b: int, d: int)
    requires
        d > 0,
        n <= b * d,
    ensures
        n / d <= b,
{
    lemma_div_bounds(n, d);
    assert(n / d <= b) by (nonlinear_arith)
        requires
            d > 0,
            n <= b * d,
            d * (n / d) <= n,
            n < d * (n / d) + d,
    ;
}

/// If `n >= b * d` then `n / d >= b`.
proof fn lemma_div_ge(n: int, b: int, d: int)
    requires
        d > 0,
        n >= b * d,
    ensures
        n / d >= b,
{
    lemma_div_bounds(n, d);
    assert(n / d >= b) by (nonlinear_arith)
        requires
            d > 0,
            n >= b * d,
            d * (n / d) <= n,
            n < d * (n / d) + d,
    ;
}

/// The ceiling division brackets its argument from above:
/// `s * ceil_div(n, s)` is at least `n` and overshoots by less than `s`.
pub proof fn lemma_ceil_div_bounds(n: int, s: int)
    requires
        n >= 0,
        s > 0,
    ensures
        ceil_div(n, s) >= 0,
        s * ceil_div(n, s) >= n,
        s * ceil_div(n, s) <= n + s - 1,
{
    lemma_div_bounds(n + s - 1, s);
    assert(ceil_div(n, s) >= 0 && s * ceil_div(n, s) >= n && s * ceil_div(n, s) <= n + s - 1)
        by (nonlinear_arith)
        requires
            n >= 0,
            s > 0,
            ceil_div(n, s) == (n + s - 1) / s,
            s * ((n + s - 1) / s) <= n + s - 1,
            n + s - 1 < s * ((n + s - 1) / s) + s,
    ;
}

/// Ceiling division of `n` by `s`, for 128-bit operands.
fn ceil_div_u128(n: u128, d: u128) -> (q: u128)
    requires
        d > 0,
        n + d - 1 <= u128::MAX,
    ensures
        q == ceil_div(n as int, d as int),
{
    (n + (d - 1)) / d
}

/// Computes both reserve legs a deposit of `shares` new shares requires,
/// rounded up, against current reserves `(x, y)` and share supply `supply`.
///
/// Fails with `NoLiquidity` when no shares are outstanding (a proportional
/// price does not exist), and with `MathOverflow` when a leg would not fit
/// in 64 bits.
pub fn deposit_amounts(x: u64, y: u64, supply: u64, shares: u64) -> (r: Result<
    PairAmounts,
    AmmError,
>)
    ensures
        supply == 0 ==> r == Err::<PairAmounts, AmmError>(AmmError::NoLiquidity),
        supply > 0 ==> ({
            let xi = spec_deposit_leg(x as int, supply as int, shares as int);
            let yi = spec_deposit_leg(y as int, supply as int, shares as int);
            if xi <= u64::MAX && yi <= u64::MAX {
                r == Ok::<PairAmounts, AmmError>(PairAmounts { x: xi as u64, y: yi as u64 })
            } else {
                r == Err::<PairAmounts, AmmError>(AmmError::MathOverflow)
            }
        }),
{
    if supply == 0 {
        return Err(AmmError::NoLiquidity);
    }
    proof {
        assert((x as int) * (shares as int) <= (u64::MAX as int) * (u64::MAX as int)
            && (y as int) * (shares as int) <= (u64::MAX as int) * (u64::MAX as int))
            by (nonlinear_arith)
            requires
                x <= u64::MAX,
                y <= u64::MAX,
                shares <= u64::MAX,
        ;
    }
    let xn: u128 = (x as u128) * (shares as u128);
    let yn: u128 = (y as u128) * (shares as u128);
    let xq = ceil_div_u128(xn, supply as u128);
    let yq = ceil_div_u128(yn, supply as u128);
    if xq > u64::MAX as u128 || yq > u64::MAX as u128 {
        return Err(AmmError::MathOverflow);
    }
    Ok(PairAmounts { x: xq as u64, y: yq as u64 })
}

/// Computes both reserve legs a withdrawal of `shares` shares returns,
/// rounded down, against current reserves `(x, y)` and share supply
/// `supply`.
///
/// Fails with `NoLiquidity` when no shares are outstanding, and with
/// `MathOverflow` when a leg would not fit in 64 bits (possible only when
/// burning more shares than exist).  Burning at most the outstanding
/// supply always succeeds.
pub fn withdraw_amounts(x: u64, y: u64, supply: u64, shares: u64) -> (r: Result<
    PairAmounts,
    AmmError,
>)
    ensures
        supply == 0 ==> r == Err::<PairAmounts, AmmError>(AmmError::NoLiquidity),
        supply > 0 ==> ({
            let xi = spec_withdraw_leg(x as int, supply as int, shares as int);
            let yi = spec_withdraw_leg(y as int, supply as int, shares as int);
            if xi <= u64::MAX && yi <= u64::MAX {
                r == Ok::<PairAmounts, AmmError>(PairAmounts { x: xi as u64, y: yi as u64 })
            } else {
                r == Err::<PairAmounts, AmmError>(AmmError::MathOverflow)
            }
        }),
        supply > 0 && shares <= supply ==> (r matches Ok(a) && a.x <= x && a.y <= y),
{
    if supply == 0 {
        return Err(AmmError::NoLiquidity);
    }
    proof {
        assert((x as int) * (shares as int) <= (u64::MAX as int) * (u64::MAX as int)
            && (y as int) * (shares as int) <= (u64::MAX as int) * (u64::MAX as int))
            by (nonlinear_arith)
            requires
                x <= u64::MAX,
                y <= u64::MAX,
                shares <= u64::MAX,
        ;
    }
    let xn: u128 = (x as u128) * (shares as u128);
    let yn: u128 = (y as u128) * (shares as u128);
    let xq = xn / (supply as u128);
    let yq = yn / (supply as u128);
    proof {
        if shares <= supply {
            assert((x as int) * (shares as int) <= (x as int) * (supply as int)
                && (y as int) * (shares as int) <= (y as int) * (supply as int))
                by (nonlinear_arith)
                requires
                    shares <= supply,
                    x >= 0,
                    y >= 0,
            ;
            lemma_div_le(xn as int, x as int, supply as int);
            lemma_div_le(yn as int, y as int, supply as int);
        }
    }
    if xq > u64::MAX as u128 || yq > u64::MAX as u128 {
        return Err(AmmError::MathOverflow);
    }
    Ok(PairAmounts { x: xq as u64, y: yq as u64 })
}

/// Computes the two legs of a swap of `amount` input units against an
/// input-side reserve `rin` and an output-side reserve `rout`, with `fee`
/// basis points kept by the pool.
///
/// Never fails: a trade too small to buy anything simply returns a zero
/// output leg, which the caller must reject as degenerate.
pub fn swap_amounts(rin: u64, rout: u64, amount: u64, fee: u16) -> (r: SwapResult)
    requires
        fee < FEE_LIMIT,
    ensures
        r.deposit == amount,
        r.withdraw == spec_swap_output(rin as int, rout as int, amount as int, fee as int),
        r.withdraw <= rout,
{
    proof {
        assert((amount as int) * ((10000 - fee) as int) <= (u64::MAX as int) * 10000int)
            by (nonlinear_arith)
            requires
                amount <= u64::MAX,
                fee < 10000,
        ;
    }
    let aff128: u128 = (amount as u128) * ((10000 - fee) as u128) / 10000;
    proof {
        lemma_div_le((amount as int) * ((10000 - fee) as int), u64::MAX as int, 10000int);
    }
    let ghost aff = spec_amount_after_fee(amount as int, fee as int);
    assert(aff128 == aff);
    if aff128 == 0 && rin == 0 {
        return SwapResult { deposit: amount, withdraw: 0 };
    }
    proof {
        assert((rout as int) * (aff as int) <= (u64::MAX as int) * (u64::MAX as int))
            by (nonlinear_arith)
            requires
                rout <= u64::MAX,
                0 <= aff <= u64::MAX,
        ;
    }
    let denom: u128 = (rin as u128) + aff128;
    let w: u128 = (rout as u128) * aff128 / denom;
    proof {
        assert((rout as int) * (aff as int) <= (rout as int) * (denom as int))
            by (nonlinear_arith)
            requires
                rout >= 0,
                0 <= aff <= denom,
        ;
        lemma_div_le((rout as int) * (aff as int), rout as int, denom as int);
    }
    SwapResult { deposit: amount, withdraw: w as u64 }
}

/// The constant-product guarantee of one swap: the output is never more
/// than the output reserve, and crediting the full input while debiting
/// the output never decreases the product of the reserves.
pub proof fn lemma_swap_product_nondecreasing(rin: int, rout: int, amount: int, fee: int)
    requires
        0 <= fee < 10000,
        0 <= amount,
        0 <= rin,
        0 <= rout,
    ensures
        0 <= spec_swap_output(rin, rout, amount, fee) <= rout,
        (rin + amount) * (rout - spec_swap_output(rin, rout, amount, fee)) >= rin * rout,
{
    let aff = spec_amount_after_fee(amount, fee);
    lemma_div_bounds(amount * (10000 - fee), 10000);
    assert(0 <= aff <= amount) by (nonlinear_arith)
        requires
            0 <= fee < 10000,
            0 <= amount,
            aff == amount * (10000 - fee) / 10000,
            10000 * (amount * (10000 - fee) / 10000) <= amount * (10000 - fee),
            amount * (10000 - fee) < 10000 * (amount * (10000 - fee) / 10000) + 10000,
    ;
    let w = spec_swap_output(rin, rout, amount, fee);
    if rin + aff == 0 {
        assert(w == 0);
        assert((rin + amount) * (rout - 0) >= rin * rout) by (nonlinear_arith)
            requires
                0 <= rin,
                0 <= rout,
                0 <= amount,
        ;
    } else {
        let d = rin + aff;
        let n = rout * aff;
        assert(n >= 0) by (nonlinear_arith)
            requires
                rout >= 0,
                aff >= 0,
                n == rout * aff,
        ;
        assert(w == n / d);
        lemma_div_bounds(n, d);
        assert(n <= rout * d) by (nonlinear_arith)
            requires
                rout >= 0,
                0 <= aff <= d,
                n == rout * aff,
        ;
        lemma_div_le(n, rout, d);
        lemma_div_ge(n, 0, d);
        assert((rin + aff) * (rout - w) >= rin * rout) by (nonlinear_arith)
            requires
                d == rin + aff,
                n == rout * aff,
                d * w <= n,
                d > 0,
        ;
        assert((rin + amount) * (rout - w) >= (rin + aff) * (rout - w)) by (nonlinear_arith)
            requires
                amount >= aff,
                rout - w >= 0,
        ;
    }
}

/// With a positive fee, a trade against live reserves strictly grows the
/// reserve product: the fee stays in the pool, rewarding share holders.
pub proof fn lemma_swap_fee_strictly_increases(rin: int, rout: int, amount: int, fee: int)
    requires
        1 <= fee < 10000,
        1 <= amount,
        1 <= rin,
        1 <= rout,
    ensures
        (rin + amount) * (rout - spec_swap_output(rin, rout, amount, fee)) > rin * rout,
{
    let aff = spec_amount_after_fee(amount, fee);
    lemma_div_bounds(amount * (10000 - fee), 10000);
    assert(0 <= aff && aff < amount) by (nonlinear_arith)
        requires
            1 <= fee < 10000,
            1 <= amount,
            aff == amount * (10000 - fee) / 10000,
            10000 * (amount * (10000 - fee) / 10000) <= amount * (10000 - fee),
            amount * (10000 - fee) < 10000 * (amount * (10000 - fee) / 10000) + 10000,
    ;
    let w = spec_swap_output(rin, rout, amount, fee);
    let d = rin + aff;
    let n = rout * aff;
    assert(w == n / d);
    lemma_div_bounds(n, d);
    assert(n >= 0 && n < rout * d) by (nonlinear_arith)
        requires
            rout >= 1,
            0 <= aff < d,
            n == rout * aff,
    ;
    lemma_div_le(n, rout, d);
    lemma_div_ge(n, 0, d);
    assert(w < rout) by (nonlinear_arith)
        requires
            d > 0,
            d * w <= n,
            n < rout * d,
            w <= rout,
    ;
    assert((rin + aff) * (rout - w) >= rin * rout) by (nonlinear_arith)
        requires
            d == rin + aff,
            n == rout * aff,
            d * w <= n,
            d > 0,
    ;
    assert((rin + amount) * (rout - w) >= (rin + aff + 1) * (rout - w)) by (nonlinear_arith)
        requires
            amount >= aff + 1,
            rout - w >= 0,
    ;
    assert((rin + aff + 1) * (rout - w) > rin * rout) by (nonlinear_arith)
        requires
            (rin + aff) * (rout - w) >= rin * rout,
            rout - w >= 1,
    ;
}

/// Charging a fee never yields more output than the fee-less trade would.
pub proof fn lemma_fee_reduces_output(rin: int, rout: int, amount: int, fee: int)
    requires
        0 <= fee < 10000,
        0 <= amount,
        0 <= rin,
        0 <= rout,
    ensures
        spec_swap_output(rin, rout, amount, fee) <= spec_swap_output(rin, rout, amount, 0),
{
    let a1 = spec_amount_after_fee(amount, fee);
    let a2 = spec_amount_after_fee(amount, 0);
    lemma_div_bounds(amount * (10000 - fee), 10000);
    lemma_div_bounds(amount * 10000, 10000);
    assert(0 <= a1 && a1 <= a2 && a2 == amount) by (nonlinear_arith)
        requires
            0 <= fee < 10000,
            0 <= amount,
            a1 == amount * (10000 - fee) / 10000,
            a2 == amount * 10000 / 10000,
            10000 * (amount * (10000 - fee) / 10000) <= amount * (10000 - fee),
            amount * (10000 - fee) < 10000 * (amount * (10000 - fee) / 10000) + 10000,
            10000 * (amount * 10000 / 10000) <= amount * 10000,
            amount * 10000 < 10000 * (amount * 10000 / 10000) + 10000,
    ;
    lemma_swap_output_monotone(rin, rout, a1, a2);
}

/// The swap output is monotone in the effective input.
proof fn lemma_swap_output_monotone(rin: int, rout: int, a1: int, a2: int)
    requires
        0 <= a1 <= a2,
        0 <= rin,
        0 <= rout,
    ensures
        ({
            let w1 = if rin + a1 == 0 { 0int } else { rout * a1 / (rin + a1) };
            let w2 = if rin + a2 == 0 { 0int } else { rout * a2 / (rin + a2) };
            w1 <= w2
        }),
{
    let d1 = rin + a1;
    let d2 = rin + a2;
    if d1 == 0 {
        if d2 != 0 {
            let n2 = rout * a2;
            assert(n2 >= 0) by (nonlinear_arith)
                requires
                    rout >= 0,
                    a2 >= 0,
                    n2 == rout * a2,
            ;
            lemma_div_ge(n2, 0, d2);
        }
    } else {
        let n1 = rout * a1;
        let n2 = rout * a2;
        let q1 = n1 / d1;
        lemma_div_bounds(n1, d1);
        assert(n1 * d2 <= n2 * d1) by (nonlinear_arith)
            requires
                0 <= a1 <= a2,
                rin >= 0,
                rout >= 0,
                n1 == rout * a1,
                n2 == rout * a2,
                d1 == rin + a1,
                d2 == rin + a2,
        ;
        assert(q1 * d2 <= n2) by (nonlinear_arith)
            requires
                d1 > 0,
                d2 > 0,
                d1 * q1 <= n1,
                n1 * d2 <= n2 * d1,
        ;
        lemma_div_ge(n2, q1, d2);
    }
}

/// Depositing shares and immediately withdrawing the same shares returns,
/// per reserve leg, at most what was contributed, and at most one unit
/// less: the deposit rounds up, the withdrawal rounds down, and the two
/// roundings cancel to within a single unit.
pub proof fn lemma_deposit_withdraw_round_trip(reserve: int, supply: int, shares: int)
    requires
        reserve >= 0,
        supply >= 1,
        shares >= 1,
    ensures
        ({
            let contributed = spec_deposit_leg(reserve, supply, shares);
            let returned = spec_withdraw_leg(
                reserve + contributed,
                supply + shares,
                shares,
            );
            contributed - 1 <= returned <= contributed
        }),
{
    let x = spec_deposit_leg(reserve, supply, shares);
    lemma_ceil_div_bounds(reserve * shares, supply);
    assert(reserve * shares >= 0) by (nonlinear_arith)
        requires
            reserve >= 0,
            shares >= 0,
    ;
    let d = supply + shares;
    let n = (reserve + x) * shares;
    assert(n <= x * d) by (nonlinear_arith)
        requires
            n == (reserve + x) * shares,
            d == supply + shares,
            supply * x >= reserve * shares,
            shares >= 0,
    ;
    lemma_div_le(n, x, d);
    assert(n >= (x - 1) * d + 1) by (nonlinear_arith)
        requires
            n == (reserve + x) * shares,
            d == supply + shares,
            supply * x <= reserve * shares + supply - 1,
            shares >= 1,
            supply >= 1,
            x >= 0,
    ;
    lemma_div_ge(n, x - 1, d);
}

} // verus!
