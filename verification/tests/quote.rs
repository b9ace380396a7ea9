use stoikov::fixed::{div_trunc_i128, round_to_tick};
use stoikov::quote::{compute_offsets, QuoteKernels};

fn kernels(bid_base: i128, bid_half: i128, ask_base: i128, ask_half: i128) -> QuoteKernels {
    QuoteKernels { bid_base, bid_half, ask_base, ask_half }
}

#[test]
fn symmetric_kernels_flat_inventory_symmetric_quotes() {
    // gamma=0.1, sigma_fix=0.01, q=0, A=0.4, K=0.2 on both sides:
    // base = ln(1.5)/0.1 ~ 4.0546510, half = sqrt(1e-5/0.16 * 1.5^3) ~ 0.0145237
    let k = kernels(4_054_651_081, 14_523_687, 4_054_651_081, 14_523_687);
    let s = compute_offsets(&k, 0, 5);
    assert_eq!(s.bid, s.ask);
    // bid = base + half/2
    assert_eq!(s.bid, 4_054_651_081 + 7_261_843);
}

#[test]
fn identical_inputs_identical_offsets() {
    let k = kernels(4_054_651_081, 14_523_687, 3_000_000_000, 20_000_000);
    let a = compute_offsets(&k, 3, 5);
    let b = compute_offsets(&k, 3, 5);
    assert_eq!(a.bid, b.bid);
    assert_eq!(a.ask, b.ask);
}

#[test]
fn larger_inventory_skews_quotes_downward() {
    // growing long inventory raises the bid offset and lowers the ask offset
    let k = kernels(1_000_000_000, 1_000_000, 1_000_000_000, 1_000_000);
    let lo = compute_offsets(&k, 5, 5);
    let hi = compute_offsets(&k, 6, 5);
    assert!(hi.bid > lo.bid);
    assert!(hi.ask < lo.ask);
    // exact inventory terms over the common denominator 2*order_qty = 10:
    // bid: (2*5+5)*1e6/10 = 1_500_000; ask: -(2*5-5)*1e6/10 = -500_000
    assert_eq!(lo.bid, 1_000_000_000 + 1_500_000);
    assert_eq!(lo.ask, 1_000_000_000 - 500_000);
}

#[test]
fn short_inventory_skews_quotes_upward() {
    let k = kernels(1_000_000_000, 1_000_000, 1_000_000_000, 1_000_000);
    let flat = compute_offsets(&k, 0, 5);
    let short = compute_offsets(&k, -5, 5);
    assert!(short.bid < flat.bid);
    assert!(short.ask > flat.ask);
    // q = -1: bid term (2*-5+5)*1e6/10 = -500_000, ask term -(2*-5-5)*1e6/10 = +1_500_000
    assert_eq!(short.bid, 1_000_000_000 - 500_000);
    assert_eq!(short.ask, 1_000_000_000 + 1_500_000);
}

#[test]
fn round_to_tick_nearest_multiple() {
    // 1.234567890 at tick 0.01 rounds to 1.23
    assert_eq!(round_to_tick(1_234_567_890, 10_000_000), 1_230_000_000);
    // 1.235 at tick 0.01 rounds up (ties away from zero)
    assert_eq!(round_to_tick(1_235_000_000, 10_000_000), 1_240_000_000);
    // negative prices mirror
    assert_eq!(round_to_tick(-1_235_000_000, 10_000_000), -1_240_000_000);
    assert_eq!(round_to_tick(15, 10), 20);
    assert_eq!(round_to_tick(14, 10), 10);
    assert_eq!(round_to_tick(-15, 10), -20);
}

#[test]
fn truncating_division_rounds_toward_zero() {
    assert_eq!(div_trunc_i128(7, 2), 3);
    assert_eq!(div_trunc_i128(-7, 2), -3);
    assert_eq!(div_trunc_i128(0, 5), 0);
}
