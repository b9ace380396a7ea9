//! The quote-offset model: the closed-form reservation half-spread per side is
//! taken as an input (its logarithm/square-root kernel is transcendental and
//! is evaluated by the unverified boundary), and this module combines it with
//! the signed inventory ratio `q = position_amount / order_qty` into the final
//! bid and ask offsets
//!
//! ```text
//! bid_offset = bid_base + (q + 0.5) * bid_half
//! ask_offset = ask_base - (q - 0.5) * ask_half
//! ```
//!
//! exactly, in fixed point, with the two laws the skew must obey: determinism
//! and strict inventory monotonicity.

use vstd::prelude::*;
use crate::fixed::{
    div_trunc, div_trunc_i128, lemma_div_trunc_bound, lemma_div_trunc_neg, INPUT_LIMIT,
};

verus! {

/// Bound accepted for the per-side kernel values (fixed point).
pub const KERNEL_LIMIT: i128 = 1_000_000_000_000_000_000_000_000_000;

/// Bound on every offset this module produces (fixed point).
pub const OFFSET_LIMIT: i128 = 4_000_000_000_000_000_000_000_000_000_000_000_000;

/// The transcendental kernels of the quote model, one pair per side, fixed
/// point and non-negative:
/// `*_base = ln(1 + gamma/K)/gamma` and
/// `*_half = sqrt(sigma_fix^2*gamma/(2*K*A) * (1 + gamma/K)^(1 + K/gamma))`,
/// with `K`/`A` the intensity parameters of that side.
#[derive(Clone, Copy, Debug)]
pub struct QuoteKernels {
    pub bid_base: i128,
    pub bid_half: i128,
    pub ask_base: i128,
    pub ask_half: i128,
}

impl QuoteKernels {
    /// Bounds under which the offset combination cannot overflow.
    pub open spec fn valid(self) -> bool {
        &&& 0 <= self.bid_base <= KERNEL_LIMIT
        &&& 0 <= self.bid_half <= KERNEL_LIMIT
        &&& 0 <= self.ask_base <= KERNEL_LIMIT
        &&& 0 <= self.ask_half <= KERNEL_LIMIT
    }
}

/// The pair of quote offsets, fixed point; consumed immediately by quoting.
#[derive(Clone, Copy, Debug)]
pub struct Spread {
    pub ask: i128,
    pub bid: i128,
}

/// Numerator of the bid side's inventory skew `(q + 0.5) * half`, over the
/// common denominator `2 * order_qty`.
pub open spec fn inventory_term_bid(position_amount: int, order_qty: int, half: int) -> int {
    (2 * position_amount + order_qty) * half
}

/// Numerator of the ask side's inventory skew `(q - 0.5) * half`, over the
/// common denominator `2 * order_qty`.
pub open spec fn inventory_term_ask(position_amount: int, order_qty: int, half: int) -> int {
    (2 * position_amount - order_qty) * half
}

/// The bid offset: reservation half-spread plus the signed inventory skew.
pub open spec fn bid_offset(k: QuoteKernels, position_amount: int, order_qty: int) -> int {
    k.bid_base + div_trunc(
        inventory_term_bid(position_amount, order_qty, k.bid_half as int),
        2 * order_qty,
    )
}

/// The ask offset: reservation half-spread minus the signed inventory skew.
pub open spec fn ask_offset(k: QuoteKernels, position_amount: int, order_qty: int) -> int {
    k.ask_base - div_trunc(
        inventory_term_ask(position_amount, order_qty, k.ask_half as int),
        2 * order_qty,
    )
}

/// Combines the per-side kernels with the inventory ratio into the two quote
/// offsets.
pub fn compute_offsets(k: &QuoteKernels, position_amount: i64, order_qty: u64) -> (s: Spread)
    requires
        k.valid(),
        -(INPUT_LIMIT as i64) <= position_amount <= INPUT_LIMIT as i64,
        1 <= order_qty <= INPUT_LIMIT,
    ensures
        s.bid == bid_offset(*k, position_amount as int, order_qty as int),
        s.ask == ask_offset(*k, position_amount as int, order_qty as int),
        -OFFSET_LIMIT <= s.bid <= OFFSET_LIMIT,
        -OFFSET_LIMIT <= s.ask <= OFFSET_LIMIT,
{
    let pa: i128 = position_amount as i128;
    let oq: i128 = order_qty as i128;
    let den: u128 = 2 * (order_qty as u128);
    proof {
        assert((2 * pa + oq) * k.bid_half <= 3_000_000_000 * KERNEL_LIMIT
            && (2 * pa + oq) * k.bid_half >= -3_000_000_000 * KERNEL_LIMIT)
            by (nonlinear_arith)
            requires
                -2_000_000_000 <= 2 * pa <= 2_000_000_000,
                1 <= oq <= 1_000_000_000,
                0 <= k.bid_half <= KERNEL_LIMIT;
        assert((2 * pa - oq) * k.ask_half <= 3_000_000_000 * KERNEL_LIMIT
            && (2 * pa - oq) * k.ask_half >= -3_000_000_000 * KERNEL_LIMIT)
            by (nonlinear_arith)
            requires
                -2_000_000_000 <= 2 * pa <= 2_000_000_000,
                1 <= oq <= 1_000_000_000,
                0 <= k.ask_half <= KERNEL_LIMIT;
    }
    let nb: i128 = (2 * pa + oq) * k.bid_half;
    let na: i128 = (2 * pa - oq) * k.ask_half;
    proof {
        lemma_div_trunc_bound(nb as int, den as int);
        lemma_div_trunc_bound(na as int, den as int);
    }
    let qb: i128 = div_trunc_i128(nb, den);
    let qa: i128 = div_trunc_i128(na, den);
    Spread { ask: k.ask_base - qa, bid: k.bid_base + qb }
}

/// Law: the offset computation is referentially transparent — identical
/// kernels and identical inventory always yield identical offsets.
pub proof fn lemma_offsets_deterministic(
    k1: QuoteKernels,
    k2: QuoteKernels,
    pa1: int,
    pa2: int,
    oq1: int,
    oq2: int,
)
    requires
        k1 == k2,
        pa1 == pa2,
        oq1 == oq2,
    ensures
        bid_offset(k1, pa1, oq1) == bid_offset(k2, pa2, oq2),
        ask_offset(k1, pa1, oq1) == ask_offset(k2, pa2, oq2),
{
}

/// Law: holding everything else fixed, a strictly larger inventory strictly
/// increases the bid side's inventory term and strictly increases the
/// numerator subtracted on the ask side — so the skew always pushes the
/// position back toward zero, symmetrically for negative inventory.
pub proof fn lemma_inventory_skew(pa1: int, pa2: int, oq: int, half: int)
    requires
        pa1 < pa2,
        half > 0,
        oq >= 1,
    ensures
        inventory_term_bid(pa1, oq, half) < inventory_term_bid(pa2, oq, half),
        inventory_term_ask(pa1, oq, half) < inventory_term_ask(pa2, oq, half),
{
    assert((2 * pa1 + oq) * half < (2 * pa2 + oq) * half) by (nonlinear_arith)
        requires
            pa1 < pa2,
            half > 0;
    assert((2 * pa1 - oq) * half < (2 * pa2 - oq) * half) by (nonlinear_arith)
        requires
            pa1 < pa2,
            half > 0;
}

/// Law: with flat inventory and symmetric kernels the two offsets coincide.
pub proof fn lemma_flat_symmetry(k: QuoteKernels, oq: int)
    requires
        oq >= 1,
        k.bid_base == k.ask_base,
        k.bid_half == k.ask_half,
        k.bid_half >= 0,
    ensures
        bid_offset(k, 0, oq) == ask_offset(k, 0, oq),
{
    let y = oq * k.bid_half;
    assert((2 * 0 + oq) * k.bid_half == y);
    assert((2 * 0 - oq) * k.ask_half == -y) by (nonlinear_arith)
        requires
            k.bid_half == k.ask_half,
            y == oq * k.bid_half;
    lemma_div_trunc_neg(y, 2 * oq);
}

} // verus!
