//! The quoting engine: all mutable state of the strategy (rolling window,
//! calibrated intensities, volatility proxy, position, PnL) together with the
//! stoploss/stopprofit risk state machine. Every decision is a pure function
//! of the state and the incoming event; the surrounding binary only performs
//! the exchange calls that the returned [`Action`] names.

use vstd::prelude::*;
use vstd::arithmetic::div_mod::{lemma_div_pos_is_pos, lemma_fundamental_div_mod, lemma_mod_bound};
use crate::fixed::{div_trunc, round_tick, round_to_tick, SCALE, INPUT_LIMIT, TICK_LIMIT};
use crate::quote::{QuoteKernels, Spread, OFFSET_LIMIT};
use crate::window::{entry_wf, lemma_wap_bounds, StrategyData, WindowEntry};

verus! {

/// The floor clamp added to every calibrated intensity parameter so that the
/// divisors of the quote model stay away from zero (`1e-7` in fixed point).
pub const EPSILON: i128 = 100;

/// Bound accepted for the risk thresholds and raw intensity parameters
/// (fixed point; one whole unit is `SCALE`).
pub const RISK_LIMIT: i128 = 1_000_000_000_000_000_000;

/// Bound maintained for the stored unrealized PnL (fixed point).
pub const PNL_LIMIT: i128 = 2_000_000_000_000_000_000;

/// Order side of an exchange command.
#[derive(Clone, Copy, Debug, PartialEq, Eq, Structural)]
pub enum Side {
    Buy,
    Sell,
}

/// What the event loop must do after a market tick. Prices named `*_fp` are
/// fixed point; `qty` is in the same raw units as the configured order size.
#[derive(Clone, Copy, Debug, PartialEq, Eq, Structural)]
pub enum Action {
    /// Nothing to do this tick (not ready, or still inside the quote period,
    /// or still in the stoploss cooldown).
    Wait,
    /// The stoploss cooldown has elapsed; quoting resumes, no order is sent.
    Resume,
    /// Emergency de-risking: cancel all resting orders, then flatten the full
    /// position with a market order.
    StopLoss { side: Side, qty: u64 },
    /// Stop-profit exit: cancel all resting orders, then flatten with a limit
    /// order at the best opposing price (raw price units).
    StopProfitExit { side: Side, qty: u64, price: u64 },
    /// Stop-profit fired with a flat position: cancel resting orders only.
    StopProfitFlat,
    /// Routine re-quote: cancel all resting orders, then place a limit buy and
    /// a limit sell of `qty` at the two tick-rounded fixed-point prices.
    Requote { buy_price_fp: i128, sell_price_fp: i128, qty: u64 },
}

/// The engine's view of its own position; mutated only by account updates.
#[derive(Clone, Debug)]
pub struct Position {
    pub symbol: String,
    /// Signed: positive long, negative short.
    pub position_amount: i64,
    pub entry_price: u64,
}

/// One balance row of an account update.
#[derive(Clone, Debug)]
pub struct Balance {
    pub asset: String,
    pub cross_wallet_balance: i128,
}

/// Position mode of an account-update row.
#[derive(Clone, Copy, Debug, PartialEq, Eq, Structural)]
pub enum PositionSide {
    Long,
    Short,
    Both,
}

/// One position row of an account update.
#[derive(Clone, Debug)]
pub struct PositionRecord {
    pub symbol: String,
    pub position_side: PositionSide,
    pub position_amount: i64,
    pub entry_price: u64,
}

/// Static configuration of the engine, already reduced to plain integers by
/// the caller (fixed-point thresholds, tick granularity, millisecond periods).
pub struct EngineConfig {
    pub base_asset: String,
    pub quote_asset: String,
    /// The trading pair, the concatenation of base and quote asset names.
    pub pair: String,
    pub order_qty: u64,
    /// Price granularity of the venue, fixed point.
    pub tick: i128,
    /// Quote replacement period, milliseconds.
    pub period: u64,
    /// Calibration warm-up window, milliseconds.
    pub estimate_window: u64,
    pub window_capacity: usize,
    /// Stoploss threshold on the unrealized PnL, fixed point, non-negative.
    pub stoploss: i128,
    /// Cooldown after a stoploss, milliseconds.
    pub stoploss_sleep: u64,
    /// Stop-profit threshold on the unrealized PnL, fixed point.
    pub stopprofit: i128,
    /// Accepted in configuration but never enforced; enforcing it is an open
    /// design decision.
    pub q_max: i128,
}

impl EngineConfig {
    /// Bounds under which the engine's arithmetic is exact.
    pub open spec fn valid(self) -> bool {
        &&& 1 <= self.order_qty <= INPUT_LIMIT
        &&& 1 <= self.tick <= TICK_LIMIT
        &&& 1 <= self.window_capacity <= crate::fixed::CAP_LIMIT
        &&& 0 <= self.stoploss <= RISK_LIMIT
        &&& 0 <= self.stopprofit <= RISK_LIMIT
    }
}

/// The Avellaneda-Stoikov quoting engine.
pub struct AvellanedaStoikov {
    pub start_time: u64,
    /// Timestamp of the last quote or stoploss action, whole seconds.
    pub timer: u64,
    pub strategy_data: StrategyData,
    pub base_asset: String,
    pub quote_asset: String,
    pub pair: String,
    pub order_qty: u64,
    pub tick: i128,
    pub period: u64,
    pub estimate_window: u64,
    /// Volatility proxy, fixed point; the mean turnover of the window.
    pub sigma: i128,
    /// Calibrated intensity parameters, fixed point, strictly positive.
    pub buy_a: i128,
    pub buy_k: i128,
    pub sell_a: i128,
    pub sell_k: i128,
    pub position: Position,
    pub cash: i128,
    pub total_profit: i128,
    pub stoploss: i128,
    pub stoploss_sleep: u64,
    pub stopprofit: i128,
    pub in_stoploss: bool,
    /// Unrealized PnL of the open position, fixed point.
    pub unrealized_pnl: i128,
    pub q_max: i128,
}

impl AvellanedaStoikov {
    /// Structure invariant, established at construction and preserved by
    /// every event handler.
    pub open spec fn wf(self) -> bool {
        &&& self.strategy_data.wf()
        &&& 1 <= self.order_qty <= INPUT_LIMIT
        &&& 1 <= self.tick <= TICK_LIMIT
        &&& 0 <= self.stoploss <= RISK_LIMIT
        &&& 0 <= self.stopprofit <= RISK_LIMIT
        &&& -(INPUT_LIMIT as int) <= self.position.position_amount <= INPUT_LIMIT as int
        &&& self.position.entry_price <= INPUT_LIMIT
        &&& (self.position.position_amount != 0 ==> self.position.entry_price >= 1)
        &&& self.buy_a > 0
        &&& self.buy_k > 0
        &&& self.sell_a > 0
        &&& self.sell_k > 0
        &&& -PNL_LIMIT <= self.unrealized_pnl <= PNL_LIMIT
    }

    /// A fresh engine: empty window, flat position, quoting state, and the
    /// model's initial volatility and intensity defaults (`sigma = 1`,
    /// `A = 0.4`, `K = 0.2`).
    pub fn new(config: EngineConfig, start_time: u64) -> (r: AvellanedaStoikov)
        requires
            config.valid(),
        ensures
            r.wf(),
            r.start_time == start_time,
            r.timer == 0,
            r.strategy_data.capacity == config.window_capacity,
            r.strategy_data.entries@.len() == 0,
            r.pair@ == config.pair@,
            r.order_qty == config.order_qty,
            r.tick == config.tick,
            r.period == config.period,
            r.estimate_window == config.estimate_window,
            r.sigma == SCALE,
            r.buy_a == 400_000_000int,
            r.buy_k == 200_000_000int,
            r.sell_a == 400_000_000int,
            r.sell_k == 200_000_000int,
            r.position.symbol@ == config.pair@,
            r.position.position_amount == 0,
            r.position.entry_price == 0,
            r.cash == 0,
            r.total_profit == 0,
            r.stoploss == config.stoploss,
            r.stoploss_sleep == config.stoploss_sleep,
            r.stopprofit == config.stopprofit,
            r.in_stoploss == false,
            r.unrealized_pnl == 0,
            r.q_max == config.q_max,
    {
        let symbol = config.pair.clone();
        AvellanedaStoikov {
            start_time,
            timer: 0,
            strategy_data: StrategyData::with_capacity(config.window_capacity),
            base_asset: config.base_asset,
            quote_asset: config.quote_asset,
            pair: config.pair,
            order_qty: config.order_qty,
            tick: config.tick,
            period: config.period,
            estimate_window: config.estimate_window,
            sigma: SCALE as i128,
            buy_a: 400_000_000,
            buy_k: 200_000_000,
            sell_a: 400_000_000,
            sell_k: 200_000_000,
            position: Position { symbol, position_amount: 0, entry_price: 0 },
            cash: 0,
            total_profit: 0,
            stoploss: config.stoploss,
            stoploss_sleep: config.stoploss_sleep,
            stopprofit: config.stopprofit,
            in_stoploss: false,
            unrealized_pnl: 0,
            q_max: config.q_max,
        }
    }

    /// Name of the strategy.
    pub fn name() -> (r: &'static str)
        ensures
            r@ == "Avellaneda_Stoikov"@,
    {
        "Avellaneda_Stoikov"
    }

    /// Whether the intensity calibration may be queried this tick: the
    /// calibrator reports readiness and the warm-up window has passed since
    /// the engine started.
    pub fn calibration_ready(&self, can_get: bool, ts: u64) -> (r: bool)
        ensures
            r == (can_get && ts > self.start_time + self.estimate_window + 1),
    {
        can_get && (ts as u128) > (self.start_time as u128) + (self.estimate_window as u128) + 1
    }

    /// Stores freshly calibrated intensity parameters, floor-clamped away
    /// from zero by [`EPSILON`].
    pub fn set_intensities(&mut self, buy_a: i128, buy_k: i128, sell_a: i128, sell_k: i128)
        requires
            old(self).wf(),
            0 <= buy_a <= RISK_LIMIT,
            0 <= buy_k <= RISK_LIMIT,
            0 <= sell_a <= RISK_LIMIT,
            0 <= sell_k <= RISK_LIMIT,
        ensures
            final(self).wf(),
            final(self).buy_a == buy_a + EPSILON,
            final(self).buy_k == buy_k + EPSILON,
            final(self).sell_a == sell_a + EPSILON,
            final(self).sell_k == sell_k + EPSILON,
            *final(self) == (AvellanedaStoikov {
                buy_a: final(self).buy_a,
                buy_k: final(self).buy_k,
                sell_a: final(self).sell_a,
                sell_k: final(self).sell_k,
                ..*old(self)
            }),
    {
        self.buy_a = buy_a + EPSILON;
        self.buy_k = buy_k + EPSILON;
        self.sell_a = sell_a + EPSILON;
        self.sell_k = sell_k + EPSILON;
    }
}

/// Fixed-point ratio `SCALE * wap / entry_price` of an entry's weighted mid to
/// the position's entry price.
pub open spec fn pnl_ratio_of(e: WindowEntry, entry_price: int) -> int {
    (SCALE * e.wap_num) / (e.wap_den * entry_price)
}

/// The engine's weighted mid of an entry as a fixed-point price.
pub open spec fn wap_fp(e: WindowEntry) -> int {
    (SCALE * e.wap_num) / (e.wap_den as int)
}

/// The unrealized PnL after a tick: `wap/entry - 1` for a long position, its
/// negation for a short one, unchanged when flat.
pub open spec fn pnl_next(pre: AvellanedaStoikov) -> int {
    let e = pre.strategy_data.entries@.last();
    if pre.position.position_amount > 0 {
        pnl_ratio_of(e, pre.position.entry_price as int) - SCALE
    } else if pre.position.position_amount < 0 {
        SCALE - pnl_ratio_of(e, pre.position.entry_price as int)
    } else {
        pre.unrealized_pnl as int
    }
}

/// The market order that flattens a position: sell the full amount when long,
/// buy the absolute amount back otherwise.
pub open spec fn flatten_action(position_amount: int) -> Action {
    if position_amount > 0 {
        Action::StopLoss { side: Side::Sell, qty: position_amount as u64 }
    } else {
        Action::StopLoss { side: Side::Buy, qty: (-position_amount) as u64 }
    }
}

/// The stop-profit exit: a limit order at the best opposing price when a
/// position is open, a bare cancel when flat.
pub open spec fn stop_profit_action(pre: AvellanedaStoikov) -> Action {
    let e = pre.strategy_data.entries@.last();
    if pre.position.position_amount > 0 {
        Action::StopProfitExit {
            side: Side::Sell,
            qty: pre.position.position_amount as u64,
            price: e.obs.ask_price,
        }
    } else if pre.position.position_amount < 0 {
        Action::StopProfitExit {
            side: Side::Buy,
            qty: (-pre.position.position_amount) as u64,
            price: e.obs.bid_price,
        }
    } else {
        Action::StopProfitFlat
    }
}

/// The routine quote replacement: a buy and a sell of the configured size at
/// the weighted mid shifted by the two offsets, rounded to the tick.
pub open spec fn requote_action(pre: AvellanedaStoikov, quote: Spread) -> Action {
    let w = wap_fp(pre.strategy_data.entries@.last());
    Action::Requote {
        buy_price_fp: round_tick(w - quote.bid, pre.tick as int) as i128,
        sell_price_fp: round_tick(w + quote.ask, pre.tick as int) as i128,
        qty: pre.order_qty,
    }
}

/// The complete risk state machine, as a function of the pre-state, the tick
/// timestamp and the freshly computed quote offsets: the updated
/// (unrealized_pnl, in_stoploss, timer) triple and the action owed.
pub open spec fn step_spec(pre: AvellanedaStoikov, now_ms: u64, quote: Spread) -> (
    int,
    bool,
    int,
    Action,
) {
    let now_s = now_ms as int / 1000;
    if !pre.in_stoploss {
        let pnl = pnl_next(pre);
        if pnl < -pre.stoploss {
            (0int, true, now_s, flatten_action(pre.position.position_amount as int))
        } else if pnl > pre.stopprofit && pre.timer + pre.period as int / 1000 <= now_s {
            (pnl, false, pre.timer as int, stop_profit_action(pre))
        } else if pre.timer + pre.period as int / 1000 <= now_s {
            (pnl, false, now_s, requote_action(pre, quote))
        } else {
            (pnl, false, pre.timer as int, Action::Wait)
        }
    } else {
        if pre.timer + pre.stoploss_sleep as int / 1000 <= now_s {
            (pre.unrealized_pnl as int, false, pre.timer as int, Action::Resume)
        } else {
            (pre.unrealized_pnl as int, true, pre.timer as int, Action::Wait)
        }
    }
}

/// The PnL ratio of a well-formed entry against a positive entry price is
/// between 0 and `SCALE * INPUT_LIMIT`.
pub proof fn lemma_pnl_ratio_bound(e: WindowEntry, entry_price: int)
    requires
        entry_wf(e),
        1 <= entry_price <= INPUT_LIMIT as int,
    ensures
        0 <= pnl_ratio_of(e, entry_price) <= SCALE * INPUT_LIMIT,
{
    lemma_wap_bounds(e.obs);
    let l = INPUT_LIMIT as int;
    let sc = SCALE as int;
    let n = e.wap_num as int;
    let d = e.wap_den as int;
    let den = d * entry_price;
    assert(1 <= den) by (nonlinear_arith)
        requires
            1 <= d,
            1 <= entry_price,
            den == d * entry_price;
    assert(sc * n <= (sc * l) * den) by (nonlinear_arith)
        requires
            n <= l * d,
            1 <= entry_price,
            1 <= d,
            1 <= l,
            1 <= sc,
            den == d * entry_price;
    crate::fixed::lemma_div_le(sc * n, den, sc * l);
    lemma_div_pos_is_pos(sc * n, den);
}

/// The fixed-point weighted mid of a well-formed entry is between 0 and
/// `SCALE * INPUT_LIMIT`.
pub proof fn lemma_wap_fp_bound(e: WindowEntry)
    requires
        entry_wf(e),
    ensures
        0 <= wap_fp(e) <= SCALE * INPUT_LIMIT,
{
    lemma_wap_bounds(e.obs);
    let l = INPUT_LIMIT as int;
    let sc = SCALE as int;
    let n = e.wap_num as int;
    let d = e.wap_den as int;
    assert(sc * n <= (sc * l) * d) by (nonlinear_arith)
        requires
            n <= l * d,
            1 <= d,
            1 <= l,
            1 <= sc;
    crate::fixed::lemma_div_le(sc * n, d, sc * l);
    lemma_div_pos_is_pos(sc * n, d);
}

impl AvellanedaStoikov {
    /// One evaluation of the risk state machine after a market tick, once
    /// calibration is ready and the quote offsets have been computed. Updates
    /// the unrealized PnL from the latest weighted mid, then either enters
    /// the stoploss cooldown (flattening market order), fires the stop-profit
    /// exit, replaces the resting quotes, waits, or leaves the cooldown —
    /// exactly as [`step_spec`] states.
    pub fn risk_step(&mut self, now_ms: u64, quote: &Spread) -> (a: Action)
        requires
            old(self).wf(),
            old(self).strategy_data.entries@.len() > 0,
            -OFFSET_LIMIT <= quote.bid <= OFFSET_LIMIT,
            -OFFSET_LIMIT <= quote.ask <= OFFSET_LIMIT,
        ensures
            final(self).wf(),
            *final(self) == (AvellanedaStoikov {
                unrealized_pnl: final(self).unrealized_pnl,
                in_stoploss: final(self).in_stoploss,
                timer: final(self).timer,
                ..*old(self)
            }),
            ({
                let (pnl, in_sl, timer, act) = step_spec(*old(self), now_ms, *quote);
                &&& final(self).unrealized_pnl == pnl
                &&& final(self).in_stoploss == in_sl
                &&& final(self).timer == timer
                &&& a == act
            }),
    {
        let now_s: u64 = now_ms / 1000;
        let period_s: u64 = self.period / 1000;
        if !self.in_stoploss {
            let idx: usize = self.strategy_data.entries.len() - 1;
            let e: &WindowEntry = &self.strategy_data.entries[idx];
            proof {
                assert(entry_wf(self.strategy_data.entries@[idx as int]));
                assert(self.strategy_data.entries@[idx as int]
                    == self.strategy_data.entries@.last());
            }
            let wap_n: u128 = e.wap_num;
            let wap_d: u64 = e.wap_den;
            let best_ask: u64 = e.obs.ask_price;
            let best_bid: u64 = e.obs.bid_price;
            let pa: i64 = self.position.position_amount;
            if pa != 0 {
                proof {
                    lemma_pnl_ratio_bound(
                        self.strategy_data.entries@.last(),
                        self.position.entry_price as int,
                    );
                    crate::fixed::lemma_mul_le(wap_d as int, 2 * INPUT_LIMIT as int,
                        self.position.entry_price as int, INPUT_LIMIT as int);
                    lemma_wap_bounds(self.strategy_data.entries@.last().obs);
                }
                let den: u128 = (wap_d as u128) * (self.position.entry_price as u128);
                proof {
                    let l = INPUT_LIMIT as int;
                    crate::fixed::lemma_mul_le(l, l, wap_d as int, 2 * l);
                    assert(den >= 1) by (nonlinear_arith)
                        requires
                            wap_d >= 1,
                            self.position.entry_price >= 1,
                            den == (wap_d as int) * (self.position.entry_price as int);
                }
                let ratio: u128 = ((SCALE as u128) * wap_n) / den;
                if pa > 0 {
                    self.unrealized_pnl = ratio as i128 - SCALE as i128;
                } else {
                    self.unrealized_pnl = SCALE as i128 - ratio as i128;
                }
            }
            if self.unrealized_pnl < -self.stoploss {
                let act = if pa > 0 {
                    Action::StopLoss { side: Side::Sell, qty: pa as u64 }
                } else {
                    Action::StopLoss { side: Side::Buy, qty: (-pa) as u64 }
                };
                self.unrealized_pnl = 0;
                self.in_stoploss = true;
                self.timer = now_s;
                act
            } else if self.unrealized_pnl > self.stopprofit && (self.timer as u128 + period_s
                as u128) <= now_s as u128 {
                if pa > 0 {
                    Action::StopProfitExit { side: Side::Sell, qty: pa as u64, price: best_ask }
                } else if pa < 0 {
                    Action::StopProfitExit { side: Side::Buy, qty: (-pa) as u64, price: best_bid }
                } else {
                    Action::StopProfitFlat
                }
            } else if (self.timer as u128 + period_s as u128) <= now_s as u128 {
                proof {
                    lemma_wap_fp_bound(self.strategy_data.entries@.last());
                    lemma_wap_bounds(self.strategy_data.entries@.last().obs);
                    let l = INPUT_LIMIT as int;
                    crate::fixed::lemma_mul_le(l, l, wap_d as int, 2 * l);
                }
                let w: i128 = (((SCALE as u128) * wap_n) / (wap_d as u128)) as i128;
                let buy_price: i128 = round_to_tick(w - quote.bid, self.tick);
                let sell_price: i128 = round_to_tick(w + quote.ask, self.tick);
                self.timer = now_s;
                Action::Requote { buy_price_fp: buy_price, sell_price_fp: sell_price,
                    qty: self.order_qty }
            } else {
                Action::Wait
            }
        } else {
            let sleep_s: u64 = self.stoploss_sleep / 1000;
            if (self.timer as u128 + sleep_s as u128) <= now_s as u128 {
                self.in_stoploss = false;
                Action::Resume
            } else {
                Action::Wait
            }
        }
    }
}

/// Whether a balance row belongs to the configured pair.
pub open spec fn balance_matches(b: Balance, pair: Seq<char>) -> bool {
    b.asset@ == pair
}

/// The cash after applying the balance rows in order: every matching row
/// overwrites it, so the last match wins; without a match it is unchanged.
pub open spec fn cash_after(s: Seq<Balance>, pair: Seq<char>, dflt: int) -> int
    decreases s.len(),
{
    if s.len() == 0 {
        dflt
    } else if balance_matches(s.last(), pair) {
        s.last().cross_wallet_balance as int
    } else {
        cash_after(s.drop_last(), pair, dflt)
    }
}

/// Whether a position row is the one tracked: same symbol, both-sides mode.
pub open spec fn position_matches(r: PositionRecord, pair: Seq<char>) -> bool {
    r.symbol@ == pair && r.position_side == PositionSide::Both
}

/// The first matching position row, if any.
pub open spec fn first_position(s: Seq<PositionRecord>, pair: Seq<char>) -> Option<PositionRecord>
    decreases s.len(),
{
    if s.len() == 0 {
        None
    } else if position_matches(s[0], pair) {
        Some(s[0])
    } else {
        first_position(s.drop_first(), pair)
    }
}

/// Bounds a position row must respect for the engine's arithmetic to stay
/// exact; a row outside them is a malformed update the caller discards.
pub open spec fn record_ok(r: PositionRecord) -> bool {
    &&& -(INPUT_LIMIT as int) <= r.position_amount <= INPUT_LIMIT as int
    &&& r.entry_price <= INPUT_LIMIT
    &&& (r.position_amount != 0 ==> r.entry_price >= 1)
}

impl AvellanedaStoikov {
    /// Refreshes the volatility proxy from the window and combines the
    /// transcendental kernels with the current inventory into the two quote
    /// offsets.
    pub fn calculate_spread(&mut self, kern: &QuoteKernels) -> (s: Spread)
        requires
            old(self).wf(),
            old(self).strategy_data.entries@.len() > 0,
            kern.valid(),
        ensures
            final(self).wf(),
            *final(self) == (AvellanedaStoikov { sigma: final(self).sigma, ..*old(self) }),
            final(self).sigma == div_trunc(
                crate::window::sum_tv(old(self).strategy_data.entries@),
                old(self).strategy_data.entries@.len() as int,
            ),
            s.bid == crate::quote::bid_offset(
                *kern,
                old(self).position.position_amount as int,
                old(self).order_qty as int,
            ),
            s.ask == crate::quote::ask_offset(
                *kern,
                old(self).position.position_amount as int,
                old(self).order_qty as int,
            ),
            -OFFSET_LIMIT <= s.bid <= OFFSET_LIMIT,
            -OFFSET_LIMIT <= s.ask <= OFFSET_LIMIT,
    {
        let mean = self.strategy_data.mean_turnover().unwrap();
        self.sigma = mean;
        crate::quote::compute_offsets(kern, self.position.position_amount, self.order_qty)
    }

    /// Applies an account update: every balance row of the pair overwrites
    /// the cash (last one wins), and the first position row with the pair's
    /// symbol in both-sides mode overwrites the tracked amount and entry
    /// price. Rows that match nothing leave the previous values unchanged.
    pub fn on_account(&mut self, balances: &Vec<Balance>, positions: &Vec<PositionRecord>)
        requires
            old(self).wf(),
            forall|i: int|
                0 <= i < positions@.len() && position_matches(
                    #[trigger] positions@[i],
                    old(self).pair@,
                ) ==> record_ok(positions@[i]),
        ensures
            final(self).wf(),
            *final(self) == (AvellanedaStoikov {
                cash: final(self).cash,
                position: final(self).position,
                ..*old(self)
            }),
            final(self).cash == cash_after(balances@, old(self).pair@, old(self).cash as int),
            final(self).position.symbol == old(self).position.symbol,
            match first_position(positions@, old(self).pair@) {
                Some(r) => final(self).position.position_amount == r.position_amount
                    && final(self).position.entry_price == r.entry_price,
                None => final(self).position == old(self).position,
            },
    {
        let ghost pair_view = self.pair@;
        proof {
            assert(positions@.skip(0) =~= positions@);
        }
        let mut i: usize = 0;
        while i < balances.len()
            invariant
                i <= balances@.len(),
                *self == (AvellanedaStoikov { cash: self.cash, ..*old(self) }),
                self.cash == cash_after(
                    balances@.subrange(0, i as int),
                    pair_view,
                    old(self).cash as int,
                ),
                pair_view == self.pair@,
            decreases balances@.len() - i,
        {
            let b: &Balance = &balances[i];
            proof {
                assert(balances@.subrange(0, i + 1).drop_last() =~= balances@.subrange(
                    0,
                    i as int,
                ));
                assert(balances@.subrange(0, i + 1).last() == balances@[i as int]);
            }
            if b.asset == self.pair {
                self.cash = b.cross_wallet_balance;
            }
            i = i + 1;
        }
        proof {
            assert(balances@.subrange(0, balances@.len() as int) =~= balances@);
        }
        let mut j: usize = 0;
        while j < positions.len()
            invariant
                j <= positions@.len(),
                *self == (AvellanedaStoikov { cash: self.cash, ..*old(self) }),
                self.cash == cash_after(balances@, pair_view, old(self).cash as int),
                pair_view == self.pair@,
                old(self).wf(),
                first_position(positions@, pair_view) == first_position(
                    positions@.skip(j as int),
                    pair_view,
                ),
                forall|t: int|
                    0 <= t < positions@.len() && position_matches(
                        #[trigger] positions@[t],
                        pair_view,
                    ) ==> record_ok(positions@[t]),
            decreases positions@.len() - j,
        {
            let r: &PositionRecord = &positions[j];
            proof {
                assert(positions@.skip(j as int)[0] == positions@[j as int]);
            }
            if r.symbol == self.pair && r.position_side == PositionSide::Both {
                proof {
                    assert(position_matches(positions@[j as int], pair_view));
                    assert(record_ok(positions@[j as int]));
                    assert(first_position(positions@.skip(j as int), pair_view)
                        == Some(positions@[j as int]));
                }
                self.position.entry_price = r.entry_price;
                self.position.position_amount = r.position_amount;
                return;
            }
            proof {
                assert(positions@.skip(j as int).drop_first() =~= positions@.skip(j as int + 1));
            }
            j = j + 1;
        }
    }
}

/// Law: a PnL crossing below `-stoploss` while quoting transitions to the
/// cooldown exactly once — the transition itself issues a flattening market
/// order sized to the exact position amount with the correct side, resets the
/// PnL, and stamps the timer.
pub proof fn lemma_stoploss_transition(pre: AvellanedaStoikov, now_ms: u64, quote: Spread)
    requires
        pre.wf(),
        !pre.in_stoploss,
        pnl_next(pre) < -pre.stoploss,
    ensures
        ({
            let (pnl, in_sl, timer, act) = step_spec(pre, now_ms, quote);
            let pa = pre.position.position_amount as int;
            &&& in_sl == true
            &&& pnl == 0
            &&& timer == now_ms as int / 1000
            &&& (pa > 0 ==> act == Action::StopLoss { side: Side::Sell, qty: pa as u64 })
            &&& (pa <= 0 ==> act == Action::StopLoss { side: Side::Buy, qty: (-pa) as u64 })
        }),
{
}

/// Law: while in the cooldown no order is ever issued — the step yields only
/// `Wait` or `Resume`, so a crossing triggers its flattening order exactly
/// once.
pub proof fn lemma_cooldown_no_orders(pre: AvellanedaStoikov, now_ms: u64, quote: Spread)
    requires
        pre.in_stoploss,
    ensures
        ({
            let (pnl, in_sl, timer, act) = step_spec(pre, now_ms, quote);
            act == Action::Wait || act == Action::Resume
        }),
{
}

/// Law: the cooldown never ends early. If the stoploss triggered at
/// `trigger_ms` (stamping `timer = trigger_ms / 1000`) and both the trigger
/// instant and the configured sleep are whole seconds, then for every
/// `now_ms` less than `trigger_ms + stoploss_sleep` the step stays in the
/// cooldown and waits. (With sub-second trigger instants the guarantee holds
/// at the engine's one-second timer granularity.)
pub proof fn lemma_cooldown_holds(
    pre: AvellanedaStoikov,
    trigger_ms: u64,
    now_ms: u64,
    quote: Spread,
)
    requires
        pre.in_stoploss,
        trigger_ms % 1000 == 0,
        pre.stoploss_sleep % 1000 == 0,
        pre.timer == trigger_ms / 1000,
        now_ms < trigger_ms + pre.stoploss_sleep,
    ensures
        ({
            let (pnl, in_sl, timer, act) = step_spec(pre, now_ms, quote);
            &&& in_sl == true
            &&& act == Action::Wait
        }),
{
    let t = trigger_ms as int;
    let s = pre.stoploss_sleep as int;
    let now = now_ms as int;
    lemma_fundamental_div_mod(t, 1000);
    lemma_fundamental_div_mod(s, 1000);
    lemma_fundamental_div_mod(now, 1000);
    lemma_mod_bound(now, 1000);
    assert(t + s == 1000 * (t / 1000 + s / 1000));
    assert(1000 * (now / 1000) <= now);
    if t / 1000 + s / 1000 <= now / 1000 {
        assert(1000 * (t / 1000 + s / 1000) <= 1000 * (now / 1000)) by (nonlinear_arith)
            requires
                t / 1000 + s / 1000 <= now / 1000;
        assert(false);
    }
}

} // verus!
