//! The rolling market-statistics window: a fixed-capacity FIFO of book-ticker
//! observations, each stored together with its derived analytics (weighted
//! mid, order-book imbalance, spread, turnover proxy) so that eviction keeps
//! every series in lock-step by construction.

use vstd::prelude::*;
use vstd::math::{abs, min};
use std::collections::VecDeque;
use crate::fixed::{
    div_trunc, div_trunc_i128, lemma_div_le, lemma_mul_le, CAP_LIMIT, INPUT_LIMIT, SCALE,
};

verus! {

/// Bound on the turnover proxy of a well-formed window entry:
/// `SCALE * (2 * INPUT_LIMIT + 1)`.
pub const TV_LIMIT: i128 = 2_000_000_001_000_000_000;

/// One raw book-ticker observation. Prices and quantities are plain integers
/// in units fixed by the caller; both sides must carry a positive price and
/// the two quantities must not both be zero.
#[derive(Clone, Copy, Debug)]
pub struct Observation {
    pub timestamp: u64,
    pub ask_price: u64,
    pub ask_qty: u64,
    pub bid_price: u64,
    pub bid_qty: u64,
}

impl Observation {
    /// The bounds under which every derived quantity is exact and free of
    /// overflow.
    pub open spec fn valid(self) -> bool {
        &&& 1 <= self.ask_price <= INPUT_LIMIT
        &&& 1 <= self.bid_price <= INPUT_LIMIT
        &&& self.ask_qty <= INPUT_LIMIT
        &&& self.bid_qty <= INPUT_LIMIT
        &&& self.ask_qty + self.bid_qty >= 1
    }
}

/// Numerator of the size-weighted mid price `wap = (bid*ask_qty + ask*bid_qty)
/// / (ask_qty + bid_qty)`, kept as an exact rational.
pub open spec fn wap_num(o: Observation) -> int {
    o.bid_price * o.ask_qty + o.ask_price * o.bid_qty
}

/// Denominator of the size-weighted mid price: the total top-of-book size.
pub open spec fn wap_den(o: Observation) -> int {
    o.ask_qty + o.bid_qty
}

/// Bid-ask spread, possibly negative on a crossed book.
pub open spec fn spread_of(o: Observation) -> int {
    o.ask_price - o.bid_price
}

/// Turnover proxy `|wap/oldest_wap - 1| + spread/wap` as a fixed-point value,
/// where the oldest weighted mid is the rational `n0 / d0` and every quotient
/// truncates toward zero.
pub open spec fn tv_of(o: Observation, n0: int, d0: int) -> int {
    let n = wap_num(o);
    let d = wap_den(o);
    let s = spread_of(o);
    let drift = (SCALE * abs(n * d0 - n0 * d)) / (d * n0);
    let rel = (SCALE * abs(s) * d) / n;
    if s >= 0 {
        drift + rel
    } else {
        drift - rel
    }
}

/// One resident element of the window: the raw observation and all series
/// derived from it at push time.
#[derive(Clone, Copy, Debug)]
pub struct WindowEntry {
    pub obs: Observation,
    /// Weighted-mid numerator, `bid*ask_qty + ask*bid_qty`.
    pub wap_num: u128,
    /// Weighted-mid denominator, `ask_qty + bid_qty`.
    pub wap_den: u64,
    /// Imbalance numerator, `bid_qty`; the denominator is `wap_den`.
    pub imb_num: u64,
    /// Spread `ask - bid`.
    pub spread: i64,
    /// Turnover proxy relative to the oldest resident weighted mid, fixed
    /// point.
    pub tv: i128,
}

/// Well-formedness of a resident entry: the derived fields agree with the
/// observation and the turnover proxy is bounded.
pub open spec fn entry_wf(e: WindowEntry) -> bool {
    &&& e.obs.valid()
    &&& e.wap_num == wap_num(e.obs)
    &&& e.wap_den == wap_den(e.obs)
    &&& e.imb_num == e.obs.bid_qty
    &&& e.spread == spread_of(e.obs)
    &&& -TV_LIMIT <= e.tv <= TV_LIMIT
}

/// The weighted mid of a valid observation is an average of the two prices:
/// its rational numerator lies between `den` and `INPUT_LIMIT * den`.
pub proof fn lemma_wap_bounds(o: Observation)
    requires
        o.valid(),
    ensures
        1 <= wap_den(o) <= 2 * INPUT_LIMIT,
        wap_den(o) <= wap_num(o),
        wap_num(o) <= INPUT_LIMIT * wap_den(o),
{
    assert(wap_den(o) <= wap_num(o)) by (nonlinear_arith)
        requires
            1 <= o.ask_price,
            1 <= o.bid_price,
            0 <= o.ask_qty,
            0 <= o.bid_qty,
            wap_num(o) == o.bid_price * o.ask_qty + o.ask_price * o.bid_qty,
            wap_den(o) == o.ask_qty + o.bid_qty;
    assert(wap_num(o) <= INPUT_LIMIT * wap_den(o)) by (nonlinear_arith)
        requires
            o.ask_price <= INPUT_LIMIT,
            o.bid_price <= INPUT_LIMIT,
            0 <= o.ask_qty,
            0 <= o.bid_qty,
            wap_num(o) == o.bid_price * o.ask_qty + o.ask_price * o.bid_qty,
            wap_den(o) == o.ask_qty + o.bid_qty;
}

/// The window contents after pushing `e`: the oldest element is evicted first
/// when the window is full.
pub open spec fn after_push(s: Seq<WindowEntry>, cap: int, e: WindowEntry) -> Seq<WindowEntry> {
    if s.len() >= cap {
        s.drop_first().push(e)
    } else {
        s.push(e)
    }
}

/// Fixed-capacity rolling window of observations with derived analytics.
pub struct StrategyData {
    pub capacity: usize,
    pub entries: VecDeque<WindowEntry>,
}

impl StrategyData {
    /// Structure invariant: positive bounded capacity, never more residents
    /// than the capacity, and every resident entry well formed.
    pub open spec fn wf(self) -> bool {
        &&& 1 <= self.capacity <= CAP_LIMIT
        &&& self.entries@.len() <= self.capacity
        &&& forall|i: int|
            0 <= i < self.entries@.len() ==> entry_wf(#[trigger] self.entries@[i])
    }

    /// An empty window of the given capacity.
    pub fn with_capacity(capacity: usize) -> (r: StrategyData)
        requires
            1 <= capacity <= CAP_LIMIT,
        ensures
            r.wf(),
            r.capacity == capacity,
            r.entries@.len() == 0,
    {
        StrategyData { capacity, entries: VecDeque::with_capacity(capacity) }
    }

    /// Records one observation: evicts the oldest entry when full, then
    /// appends the observation together with its derived analytics. The
    /// turnover proxy of the new entry is computed against the weighted mid of
    /// the oldest entry resident after this push.
    pub fn push(&mut self, obs: Observation)
        requires
            old(self).wf(),
            obs.valid(),
        ensures
            final(self).wf(),
            final(self).capacity == old(self).capacity,
            final(self).entries@.len() == min(
                old(self).entries@.len() as int + 1,
                final(self).capacity as int,
            ),
            final(self).entries@ == after_push(
                old(self).entries@,
                final(self).capacity as int,
                final(self).entries@.last(),
            ),
            ({
                let e = final(self).entries@.last();
                let first = final(self).entries@[0];
                &&& e.obs == obs
                &&& e.wap_num == wap_num(obs)
                &&& e.wap_den == wap_den(obs)
                &&& e.imb_num == obs.bid_qty
                &&& e.spread == spread_of(obs)
                &&& e.tv == tv_of(obs, first.wap_num as int, first.wap_den as int)
            }),
    {
        if self.entries.len() > self.capacity - 1 {
            self.entries.pop_front();
        }
        proof {
            lemma_mul_le(obs.bid_price as int, INPUT_LIMIT as int, obs.ask_qty as int,
                INPUT_LIMIT as int);
            lemma_mul_le(obs.ask_price as int, INPUT_LIMIT as int, obs.bid_qty as int,
                INPUT_LIMIT as int);
            lemma_wap_bounds(obs);
        }
        let n: u128 = (obs.bid_price as u128) * (obs.ask_qty as u128) + (obs.ask_price as u128)
            * (obs.bid_qty as u128);
        let d: u64 = obs.ask_qty + obs.bid_qty;
        let spread: i64 = obs.ask_price as i64 - obs.bid_price as i64;
        let (n0, d0): (u128, u64) = if self.entries.len() == 0 {
            (n, d)
        } else {
            let front: &WindowEntry = &self.entries[0];
            proof {
                assert(entry_wf(self.entries@[0]));
                lemma_wap_bounds(front.obs);
            }
            (front.wap_num, front.wap_den)
        };
        let ghost l = INPUT_LIMIT as int;
        let ghost sc = SCALE as int;
        proof {
            lemma_mul_le(l, l, d0 as int, 2 * l);
            lemma_mul_le(l, l, d as int, 2 * l);
            assert(n0 as int <= l * (2 * l));
            assert(n as int <= l * (2 * l));
            lemma_mul_le(n as int, l * (2 * l), d0 as int, 2 * l);
            lemma_mul_le(n0 as int, l * (2 * l), d as int, 2 * l);
            lemma_mul_le(d as int, 2 * l, n0 as int, l * (2 * l));
        }
        let a1: u128 = n * (d0 as u128);
        let a2: u128 = n0 * (d as u128);
        let diff: u128 = if a1 >= a2 {
            a1 - a2
        } else {
            a2 - a1
        };
        let den1: u128 = (d as u128) * n0;
        proof {
            assert(den1 >= 1) by (nonlinear_arith)
                requires
                    den1 == (d as int) * (n0 as int),
                    d >= 1,
                    n0 >= 1;
            // The drift term is at most SCALE * INPUT_LIMIT: the weighted mid
            // is at most INPUT_LIMIT times the oldest weighted mid.
            assert((n as int) * (d0 as int) <= l * ((d as int) * (n0 as int)))
                by (nonlinear_arith)
                requires
                    n as int <= l * (d as int),
                    d0 as int <= n0 as int,
                    0 <= d as int,
                    0 <= d0 as int,
                    0 <= n0 as int,
                    1 <= l;
            assert((n0 as int) * (d as int) <= l * ((d as int) * (n0 as int)))
                by (nonlinear_arith)
                requires
                    0 <= n0 as int,
                    0 <= d as int,
                    1 <= l;
            assert(sc * (diff as int) <= (sc * l) * (den1 as int)) by (nonlinear_arith)
                requires
                    diff as int <= l * (den1 as int),
                    den1 == (d as int) * (n0 as int),
                    0 <= diff as int,
                    0 <= den1 as int,
                    sc >= 1;
            lemma_div_le(sc * (diff as int), den1 as int, sc * l);
        }
        let drift: u128 = ((SCALE as u128) * diff) / den1;
        let smag: u128 = if spread >= 0 {
            spread as u128
        } else {
            (-spread) as u128
        };
        proof {
            assert(sc * (smag as int) * (d as int) <= (sc * l) * (n as int))
                by (nonlinear_arith)
                requires
                    smag as int <= l,
                    d as int <= n as int,
                    0 <= d as int,
                    0 <= smag as int,
                    sc >= 1,
                    0 <= n as int;
            lemma_div_le(sc * (smag as int) * (d as int), n as int, sc * l);
        }
        let rel: u128 = ((SCALE as u128) * smag * (d as u128)) / n;
        let tv: i128 = if spread >= 0 {
            (drift + rel) as i128
        } else {
            drift as i128 - rel as i128
        };
        let entry = WindowEntry {
            obs,
            wap_num: n,
            wap_den: d,
            imb_num: obs.bid_qty,
            spread,
            tv,
        };
        self.entries.push_back(entry);
    }

    /// Arithmetic mean of the turnover proxies of the resident entries; `None`
    /// on an empty window (no estimate available).
    pub fn mean_turnover(&self) -> (r: Option<i128>)
        requires
            self.wf(),
        ensures
            r is Some <==> self.entries@.len() > 0,
            self.entries@.len() > 0 ==> (r matches Some(m) && m == div_trunc(
                sum_tv(self.entries@),
                self.entries@.len() as int,
            )),
    {
        let count: usize = self.entries.len();
        if count == 0 {
            return None;
        }
        let mut sum: i128 = 0;
        let mut i: usize = 0;
        while i < count
            invariant
                self.wf(),
                count == self.entries@.len(),
                i <= count,
                sum == sum_tv(self.entries@.subrange(0, i as int)),
                -(i as int) * TV_LIMIT <= sum <= (i as int) * TV_LIMIT,
            decreases count - i,
        {
            let e: &WindowEntry = &self.entries[i];
            proof {
                assert(entry_wf(self.entries@[i as int]));
                assert(self.entries@.subrange(0, i + 1).drop_last() =~= self.entries@.subrange(
                    0,
                    i as int,
                ));
                assert(self.entries@.subrange(0, i + 1).last() == self.entries@[i as int]);
            }
            sum = sum + e.tv;
            i = i + 1;
        }
        proof {
            assert(self.entries@.subrange(0, count as int) =~= self.entries@);
        }
        Some(div_trunc_i128(sum, count as u128))
    }
}

/// Sum of the turnover proxies of a sequence of entries.
pub open spec fn sum_tv(s: Seq<WindowEntry>) -> int
    decreases s.len(),
{
    if s.len() == 0 {
        0
    } else {
        sum_tv(s.drop_last()) + s.last().tv
    }
}

/// Law: for every push the window holds exactly `min(n + 1, capacity)`
/// elements, where `n` is the count before the push — so a run of `n` pushes
/// from empty leaves exactly `min(n, capacity)` residents.
pub proof fn lemma_rolling_capacity(s: Seq<WindowEntry>, cap: int, e: WindowEntry)
    requires
        1 <= cap,
        s.len() <= cap,
    ensures
        after_push(s, cap, e).len() == min(s.len() as int + 1, cap),
        after_push(s, cap, e).len() <= cap,
{
}

/// The parallel derived series, as projections of the single composite
/// sequence.
pub open spec fn wap_series(s: Seq<WindowEntry>) -> Seq<u128> {
    s.map_values(|e: WindowEntry| e.wap_num)
}

/// Imbalance numerators of the resident entries.
pub open spec fn imb_series(s: Seq<WindowEntry>) -> Seq<u64> {
    s.map_values(|e: WindowEntry| e.imb_num)
}

/// Spreads of the resident entries.
pub open spec fn spread_series(s: Seq<WindowEntry>) -> Seq<i64> {
    s.map_values(|e: WindowEntry| e.spread)
}

/// Turnover proxies of the resident entries.
pub open spec fn tv_series(s: Seq<WindowEntry>) -> Seq<i128> {
    s.map_values(|e: WindowEntry| e.tv)
}

/// Law: every derived series has the same length as the raw series at all
/// times — eviction and insertion act on one composite record.
pub proof fn lemma_series_lock_step(s: Seq<WindowEntry>)
    ensures
        wap_series(s).len() == s.len(),
        imb_series(s).len() == s.len(),
        spread_series(s).len() == s.len(),
        tv_series(s).len() == s.len(),
{
}

} // verus!
