//! The pool's guarantee across whole trading histories.
//!
//! A single swap never decreases the product of the two reserves (see
//! `math::lemma_swap_product_nondecreasing`); this module lifts that to
//! arbitrary sequences of swaps: along any run of trades, in either
//! direction, the constant-product invariant is monotonically
//! non-decreasing — fee income only ever adds to it.

use vstd::prelude::*;
use crate::math::{lemma_swap_product_nondecreasing, spec_swap_output};

verus! {

/// The reserves after one swap of `amount` input units: the input-side
/// reserve grows by the full input (fee included), the output-side
/// reserve shrinks by the swap output.  `is_x` true means token X is the
/// input side.
pub open spec fn spec_pool_after_swap(
    rx: int,
    ry: int,
    is_x: bool,
    amount: int,
    fee: int,
) -> (int, int) {
    if is_x {
        (rx + amount, ry - spec_swap_output(rx, ry, amount, fee))
    } else {
        (rx - spec_swap_output(ry, rx, amount, fee), ry + amount)
    }
}

/// The reserves after a sequence of swaps, each a direction flag and an
/// input amount, applied in order at a fixed fee.
pub open spec fn spec_pool_after_swaps(
    rx: int,
    ry: int,
    steps: Seq<(bool, int)>,
    fee: int,
) -> (int, int)
    decreases steps.len(),
{
    if steps.len() == 0 {
        (rx, ry)
    } else {
        let p = spec_pool_after_swap(rx, ry, steps[0].0, steps[0].1, fee);
        spec_pool_after_swaps(p.0, p.1, steps.drop_first(), fee)
    }
}

/// One swap keeps both reserves non-negative and never decreases their
/// product.
pub proof fn lemma_swap_step_product_nondecreasing(
    rx: int,
    ry: int,
    is_x: bool,
    amount: int,
    fee: int,
)
    requires
        0 <= fee < 10000,
        0 <= amount,
        0 <= rx,
        0 <= ry,
    ensures
        ({
            let p = spec_pool_after_swap(rx, ry, is_x, amount, fee);
            p.0 >= 0 && p.1 >= 0 && p.0 * p.1 >= rx * ry
        }),
{
    if is_x {
        lemma_swap_product_nondecreasing(rx, ry, amount, fee);
    } else {
        lemma_swap_product_nondecreasing(ry, rx, amount, fee);
        let w = spec_swap_output(ry, rx, amount, fee);
        assert((rx - w) * (ry + amount) == (ry + amount) * (rx - w)) by (nonlinear_arith);
        assert(ry * rx == rx * ry) by (nonlinear_arith);
    }
}

/// Along any sequence of swaps the constant-product invariant is
/// monotonically non-decreasing: the product of the reserves after the
/// whole run is at least the product before it, and — since every suffix
/// of a run is itself a run — at least the product at every intermediate
/// state.
pub proof fn lemma_swap_sequence_product_nondecreasing(
    rx: int,
    ry: int,
    steps: Seq<(bool, int)>,
    fee: int,
)
    requires
        0 <= fee < 10000,
        0 <= rx,
        0 <= ry,
        forall|i: int| 0 <= i < steps.len() ==> steps[i].1 >= 0,
    ensures
        ({
            let p = spec_pool_after_swaps(rx, ry, steps, fee);
            p.0 >= 0 && p.1 >= 0 && p.0 * p.1 >= rx * ry
        }),
    decreases steps.len(),
{
    if steps.len() > 0 {
        lemma_swap_step_product_nondecreasing(rx, ry, steps[0].0, steps[0].1, fee);
        let p = spec_pool_after_swap(rx, ry, steps[0].0, steps[0].1, fee);
        assert(forall|i: int|
            0 <= i < steps.drop_first().len() ==> #[trigger] steps.drop_first()[i].1 >= 0);
        lemma_swap_sequence_product_nondecreasing(p.0, p.1, steps.drop_first(), fee);
    }
}

} // verus!
