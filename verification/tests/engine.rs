use stoikov::engine::{
    Action, AvellanedaStoikov, Balance, EngineConfig, PositionRecord, PositionSide, Side,
};
use stoikov::quote::{QuoteKernels, Spread};
use stoikov::window::Observation;

fn config() -> EngineConfig {
    EngineConfig {
        base_asset: String::from("BTC"),
        quote_asset: String::from("USDT"),
        pair: String::from("BTCUSDT"),
        order_qty: 5,
        tick: 10_000_000,       // 0.01
        period: 2_000,          // ms
        estimate_window: 5_000, // ms
        window_capacity: 3,
        stoploss: 20_000_000,   // 0.02
        stoploss_sleep: 5_000,  // ms
        stopprofit: 10_000_000, // 0.01
        q_max: 1_000_000_000,
    }
}

fn engine() -> AvellanedaStoikov {
    AvellanedaStoikov::new(config(), 0)
}

fn tick(ts: u64, bid: u64, ask: u64) -> Observation {
    Observation { timestamp: ts, ask_price: ask, ask_qty: 1, bid_price: bid, bid_qty: 1 }
}

fn no_quote() -> Spread {
    Spread { ask: 0, bid: 0 }
}

#[test]
fn new_engine_defaults() {
    let e = engine();
    assert_eq!(e.timer, 0);
    assert_eq!(e.sigma, 1_000_000_000); // sigma = 1.0
    assert_eq!(e.buy_a, 400_000_000); // A = 0.4
    assert_eq!(e.buy_k, 200_000_000); // K = 0.2
    assert_eq!(e.sell_a, 400_000_000);
    assert_eq!(e.sell_k, 200_000_000);
    assert!(!e.in_stoploss);
    assert_eq!(e.unrealized_pnl, 0);
    assert_eq!(e.position.position_amount, 0);
    assert_eq!(e.cash, 0);
    assert_eq!(e.pair, "BTCUSDT");
}

#[test]
fn strategy_name() {
    assert_eq!(AvellanedaStoikov::name(), "Avellaneda_Stoikov");
}

#[test]
fn calibration_waits_for_warmup() {
    let e = engine(); // start_time 0, estimate_window 5000
    assert!(!e.calibration_ready(true, 5_000));
    assert!(!e.calibration_ready(true, 5_001));
    assert!(e.calibration_ready(true, 5_002));
    assert!(!e.calibration_ready(false, 9_999_999));
}

#[test]
fn intensities_are_floor_clamped() {
    let mut e = engine();
    e.set_intensities(0, 0, 0, 0);
    assert_eq!(e.buy_a, 100); // bare epsilon = 1e-7
    assert_eq!(e.buy_k, 100);
    e.set_intensities(400_000_000, 200_000_000, 300_000_000, 100_000_000);
    assert_eq!(e.buy_a, 400_000_100);
    assert_eq!(e.buy_k, 200_000_100);
    assert_eq!(e.sell_a, 300_000_100);
    assert_eq!(e.sell_k, 100_000_100);
}

#[test]
fn stoploss_crossing_flattens_long_position() {
    // position 5 @ entry 100, latest wap 97: pnl = 97/100 - 1 = -0.03 < -0.02
    let mut e = engine();
    e.position.position_amount = 5;
    e.position.entry_price = 100;
    e.strategy_data.push(tick(10_000, 97, 97));
    let act = e.risk_step(10_000, &no_quote());
    assert_eq!(act, Action::StopLoss { side: Side::Sell, qty: 5 });
    assert!(e.in_stoploss);
    assert_eq!(e.unrealized_pnl, 0); // reset on entry to the cooldown
    assert_eq!(e.timer, 10); // trigger second stamped
}

#[test]
fn stoploss_crossing_covers_short_position() {
    // short 5 @ entry 100, wap 103: pnl = -(103/100 - 1) = -0.03
    let mut e = engine();
    e.position.position_amount = -5;
    e.position.entry_price = 100;
    e.strategy_data.push(tick(10_000, 103, 103));
    let act = e.risk_step(10_000, &no_quote());
    assert_eq!(act, Action::StopLoss { side: Side::Buy, qty: 5 });
    assert!(e.in_stoploss);
}

#[test]
fn small_loss_does_not_trigger_stoploss() {
    // wap 99: pnl = -0.01, within the 0.02 stoploss
    let mut e = engine();
    e.position.position_amount = 5;
    e.position.entry_price = 100;
    e.strategy_data.push(tick(500, 99, 99));
    let act = e.risk_step(500, &no_quote()); // period not yet elapsed: timer 0, now 0s
    assert_eq!(act, Action::Wait);
    assert!(!e.in_stoploss);
    assert_eq!(e.unrealized_pnl, -10_000_000);
}

#[test]
fn cooldown_waits_full_sleep_then_resumes() {
    let mut e = engine();
    e.position.position_amount = 5;
    e.position.entry_price = 100;
    e.strategy_data.push(tick(10_000, 97, 97));
    assert_eq!(e.risk_step(10_000, &no_quote()), Action::StopLoss { side: Side::Sell, qty: 5 });
    // sleep is 5000 ms; at 12s and 14.999s the engine still waits
    assert_eq!(e.risk_step(12_000, &no_quote()), Action::Wait);
    assert!(e.in_stoploss);
    assert_eq!(e.risk_step(14_999, &no_quote()), Action::Wait);
    assert!(e.in_stoploss);
    // exactly 5000 ms after the trigger second it resumes, without an order
    assert_eq!(e.risk_step(15_000, &no_quote()), Action::Resume);
    assert!(!e.in_stoploss);
}

#[test]
fn stoploss_fires_once_per_crossing() {
    let mut e = engine();
    e.position.position_amount = 5;
    e.position.entry_price = 100;
    e.strategy_data.push(tick(10_000, 97, 97));
    let first = e.risk_step(10_000, &no_quote());
    assert!(matches!(first, Action::StopLoss { .. }));
    // the pnl is still below the threshold on the next ticks, but the engine
    // is in the cooldown: no further flattening order is issued
    e.strategy_data.push(tick(11_000, 96, 96));
    let second = e.risk_step(11_000, &no_quote());
    assert_eq!(second, Action::Wait);
    e.strategy_data.push(tick(12_000, 95, 95));
    let third = e.risk_step(12_000, &no_quote());
    assert_eq!(third, Action::Wait);
}

#[test]
fn stopprofit_exits_long_at_best_ask() {
    // long 5 @ 100, wap 102: pnl = 0.02 > stopprofit 0.01, period elapsed
    let mut e = engine();
    e.position.position_amount = 5;
    e.position.entry_price = 100;
    e.strategy_data.push(tick(10_000, 102, 102));
    let act = e.risk_step(10_000, &no_quote());
    assert_eq!(act, Action::StopProfitExit { side: Side::Sell, qty: 5, price: 102 });
    assert!(!e.in_stoploss);
    assert_eq!(e.unrealized_pnl, 20_000_000);
    assert_eq!(e.timer, 0); // the stop-profit branch does not stamp the timer
}

#[test]
fn stopprofit_exits_short_at_best_bid() {
    // short 5 @ 100, wap 98: pnl = 0.02
    let mut e = engine();
    e.position.position_amount = -5;
    e.position.entry_price = 100;
    e.strategy_data.push(tick(10_000, 98, 98));
    let act = e.risk_step(10_000, &no_quote());
    assert_eq!(act, Action::StopProfitExit { side: Side::Buy, qty: 5, price: 98 });
}

#[test]
fn stopprofit_waits_for_period() {
    // profitable, but the last action was too recent
    let mut e = engine();
    e.position.position_amount = 5;
    e.position.entry_price = 100;
    e.timer = 9; // last action at 9s, period 2s, now 10s
    e.strategy_data.push(tick(10_000, 102, 102));
    let act = e.risk_step(10_000, &no_quote());
    assert_eq!(act, Action::Wait);
}

#[test]
fn requote_places_rounded_prices_around_wap() {
    // flat position, period elapsed: place both quotes around wap = 100.5
    let mut e = engine();
    e.strategy_data.push(tick(10_000, 100, 101));
    let quote = Spread { bid: 2_000_000_000, ask: 3_000_000_000 }; // offsets 2.0 / 3.0
    let act = e.risk_step(10_000, &quote);
    assert_eq!(
        act,
        Action::Requote {
            buy_price_fp: 98_500_000_000,   // 100.5 - 2.0
            sell_price_fp: 103_500_000_000, // 100.5 + 3.0
            qty: 5,
        },
    );
    assert_eq!(e.timer, 10);
}

#[test]
fn requote_prices_are_tick_multiples() {
    // wap = 100.5, offsets 0.123456789: prices rounded to the 0.01 tick
    let mut e = engine();
    e.strategy_data.push(tick(10_000, 100, 101));
    let quote = Spread { bid: 123_456_789, ask: 123_456_789 };
    let act = e.risk_step(10_000, &quote);
    assert_eq!(
        act,
        Action::Requote {
            buy_price_fp: 100_380_000_000,  // 100.376543211 -> 100.38
            sell_price_fp: 100_620_000_000, // 100.623456789 -> 100.62
            qty: 5,
        },
    );
}

#[test]
fn account_update_takes_matching_rows() {
    let mut e = engine();
    let balances = vec![
        Balance { asset: String::from("ETHUSDT"), cross_wallet_balance: 1 },
        Balance { asset: String::from("BTCUSDT"), cross_wallet_balance: 250 },
    ];
    let positions = vec![
        PositionRecord {
            symbol: String::from("ETHUSDT"),
            position_side: PositionSide::Both,
            position_amount: 9,
            entry_price: 1,
        },
        PositionRecord {
            symbol: String::from("BTCUSDT"),
            position_side: PositionSide::Long,
            position_amount: 8,
            entry_price: 2,
        },
        PositionRecord {
            symbol: String::from("BTCUSDT"),
            position_side: PositionSide::Both,
            position_amount: 7,
            entry_price: 95,
        },
        PositionRecord {
            symbol: String::from("BTCUSDT"),
            position_side: PositionSide::Both,
            position_amount: 6,
            entry_price: 96,
        },
    ];
    e.on_account(&balances, &positions);
    assert_eq!(e.cash, 250);
    // the first both-sides row of the pair wins
    assert_eq!(e.position.position_amount, 7);
    assert_eq!(e.position.entry_price, 95);
    assert_eq!(e.position.symbol, "BTCUSDT");
}

#[test]
fn account_update_without_match_changes_nothing() {
    let mut e = engine();
    e.position.position_amount = 3;
    e.position.entry_price = 50;
    e.cash = 77;
    let balances = vec![Balance { asset: String::from("BTC"), cross_wallet_balance: 9 }];
    let positions = vec![PositionRecord {
        symbol: String::from("ETHUSDT"),
        position_side: PositionSide::Both,
        position_amount: 1,
        entry_price: 1,
    }];
    e.on_account(&balances, &positions);
    assert_eq!(e.cash, 77);
    assert_eq!(e.position.position_amount, 3);
    assert_eq!(e.position.entry_price, 50);
}

#[test]
fn account_update_last_balance_wins() {
    let mut e = engine();
    let balances = vec![
        Balance { asset: String::from("BTCUSDT"), cross_wallet_balance: 10 },
        Balance { asset: String::from("BTCUSDT"), cross_wallet_balance: 20 },
    ];
    e.on_account(&balances, &vec![]);
    assert_eq!(e.cash, 20);
}

#[test]
fn calculate_spread_refreshes_sigma_and_combines() {
    let mut e = engine();
    e.strategy_data.push(tick(1, 100, 101));
    e.strategy_data.push(tick(2, 100, 101));
    let k = QuoteKernels {
        bid_base: 4_054_651_081,
        bid_half: 14_523_687,
        ask_base: 4_054_651_081,
        ask_half: 14_523_687,
    };
    let s = e.calculate_spread(&k);
    // sigma becomes the mean turnover of the window
    assert_eq!(e.sigma, 9_950_248);
    // flat inventory and symmetric kernels: symmetric offsets
    assert_eq!(s.bid, s.ask);
    assert_eq!(s.bid, 4_054_651_081 + 7_261_843);
}

#[test]
fn flat_position_stoploss_branch_sends_zero_buy() {
    // a flat position whose stale pnl is below the threshold still runs the
    // stoploss branch; the flattening order degenerates to a zero-size buy
    let mut e = engine();
    e.unrealized_pnl = -30_000_000;
    e.strategy_data.push(tick(10_000, 100, 101));
    let act = e.risk_step(10_000, &no_quote());
    assert_eq!(act, Action::StopLoss { side: Side::Buy, qty: 0 });
    assert!(e.in_stoploss);
}
