//! Volatility from the average true range of successive best prices, and the stop, target
//! and size adjustments derived from it. Prices are in ticks; ratios in millionths.
use vstd::prelude::*;
use std::collections::VecDeque;
use crate::clock::now_millis;
use crate::fixed::SCALE;

verus! {

/// ATR values averaged into the smoothed ATR.
pub const ATR_SMOOTHING: usize = 3;

/// ATR over price, in millionths, below which volatility is low.
pub const LOW_VOLATILITY_PPM: u64 = 5_000;

/// ATR over price, in millionths, below which volatility is medium.
pub const HIGH_VOLATILITY_PPM: u64 = 20_000;

#[derive(Debug, Clone, Copy, PartialEq, Eq)]
pub enum VolatilityRegime {
    Low,
    Medium,
    High,
}

/// One reading of the book: the ask as high, the bid as low, their midpoint as close.
#[derive(Debug, Clone, Copy, PartialEq, Eq)]
pub struct PricePoint {
    pub timestamp_ms: u64,
    pub high: u64,
    pub low: u64,
    pub close: u64,
}

pub open spec fn abs_diff(a: int, b: int) -> int {
    if a >= b {
        a - b
    } else {
        b - a
    }
}

/// True range of point `i` against point `i - 1`: the largest of its own range and its
/// high's and low's distances from the previous close.
pub open spec fn true_range(h: Seq<PricePoint>, i: int) -> int {
    let cur = h[i];
    let prev_close = h[i - 1].close as int;
    let a = cur.high - cur.low;
    let b = abs_diff(cur.high as int, prev_close);
    let c = abs_diff(cur.low as int, prev_close);
    if a >= b && a >= c {
        a
    } else if b >= c {
        b
    } else {
        c
    }
}

/// Sum of the last `k` true ranges of `h`.
pub open spec fn recent_true_range_sum(h: Seq<PricePoint>, k: int) -> int
    decreases k,
{
    if k <= 0 {
        0
    } else {
        recent_true_range_sum(h, k - 1) + true_range(h, h.len() - k)
    }
}

/// Number of true ranges averaged: the period, or all there are if fewer.
pub open spec fn atr_window(h: Seq<PricePoint>, period: int) -> int {
    if period < h.len() - 1 {
        period
    } else {
        h.len() - 1
    }
}

/// Average of the last `period` true ranges (all of them if fewer), rounded down.
pub open spec fn raw_atr(h: Seq<PricePoint>, period: int) -> int {
    recent_true_range_sum(h, atr_window(h, period)) / atr_window(h, period)
}

pub open spec fn seq_sum(s: Seq<u64>) -> int
    decreases s.len(),
{
    if s.len() == 0 {
        0
    } else {
        seq_sum(s.drop_last()) + s.last()
    }
}

/// `s` with `x` appended, keeping the last `ATR_SMOOTHING` values.
pub open spec fn smoothing_push(s: Seq<u64>, x: u64) -> Seq<u64> {
    let t = s.push(x);
    if t.len() > ATR_SMOOTHING {
        t.subrange(t.len() - ATR_SMOOTHING, t.len() as int)
    } else {
        t
    }
}

/// ATR over `price`, in millionths; 0 for a zero price.
pub open spec fn atr_pct_of(atr: u64, price: u64) -> int {
    if price == 0 {
        0
    } else {
        atr * (SCALE as int) / (price as int)
    }
}

pub open spec fn regime_of(atr_pct: int) -> VolatilityRegime {
    if atr_pct < LOW_VOLATILITY_PPM {
        VolatilityRegime::Low
    } else if atr_pct < HIGH_VOLATILITY_PPM {
        VolatilityRegime::Medium
    } else {
        VolatilityRegime::High
    }
}

/// `base + atr_pct * multiplier`, all in millionths, clamped to `[min, max]`.
pub open spec fn adjusted_pct(base: u64, atr_pct: int, multiplier: u64, min: u64, max: u64) -> int {
    let v = base + atr_pct * multiplier / (SCALE as int);
    if v < min {
        min as int
    } else if v > max {
        max as int
    } else {
        v
    }
}

pub struct VolatilityCalculator {
    price_history: VecDeque<PricePoint>,
    atr_period: usize,
    current_atr: u64,
    atr_history: VecDeque<u64>,
}

impl VolatilityCalculator {
    pub closed spec fn history(&self) -> Seq<PricePoint> {
        self.price_history@
    }

    pub closed spec fn period(&self) -> usize {
        self.atr_period
    }

    pub closed spec fn atr(&self) -> u64 {
        self.current_atr
    }

    pub closed spec fn recent_atrs(&self) -> Seq<u64> {
        self.atr_history@
    }

    /// At most `period + 1` points and `ATR_SMOOTHING` ATR values are kept.
    pub closed spec fn wf(&self) -> bool {
        &&& self.price_history@.len() <= self.atr_period + 1
        &&& self.atr_history@.len() <= ATR_SMOOTHING
    }

    pub fn new(atr_period: usize) -> (r: Self)
        ensures
            r.wf(),
            r.history() == Seq::<PricePoint>::empty(),
            r.period() == atr_period,
            r.atr() == 0,
            r.recent_atrs() == Seq::<u64>::empty(),
    {
        VolatilityCalculator {
            price_history: VecDeque::new(),
            atr_period,
            current_atr: 0,
            atr_history: VecDeque::new(),
        }
    }

    /// Smoothed ATR: the latest ATR over the recent true ranges is added to the last
    /// `ATR_SMOOTHING` values, whose average, rounded down, is returned. With fewer than
    /// two points nothing changes and 0 is returned.
    pub fn calculate_atr(&mut self) -> (r: u64)
        requires
            old(self).wf(),
        ensures
            final(self).wf(),
            final(self).history() == old(self).history(),
            final(self).period() == old(self).period(),
            final(self).atr() == old(self).atr(),
            old(self).history().len() < 2 ==> r == 0 && final(self).recent_atrs() == old(self).recent_atrs(),
            old(self).history().len() >= 2 ==> {
                &&& final(self).recent_atrs() == smoothing_push(
                    old(self).recent_atrs(),
                    raw_atr(old(self).history(), old(self).period() as int) as u64,
                )
                &&& r == seq_sum(final(self).recent_atrs()) / (final(self).recent_atrs().len() as int)
            },
    {
        let n = self.price_history.len();
        if n < 2 {
            return 0;
        }
        let ghost h = self.price_history@;
        let k: usize = if self.atr_period < n - 1 {
            self.atr_period
        } else {
            n - 1
        };
        if k == 0 {
            // A zero period averages no true range.
            assert(self.atr_period == 0);
            assert(false);
        }
        let mut sum: u128 = 0;
        let mut j: usize = 0;
        while j < k
            invariant
                n == h.len(),
                h == self.price_history@,
                2 <= n,
                1 <= k <= n - 1,
                j <= k,
                sum == recent_true_range_sum(h, j as int),
                sum <= j * 0xFFFF_FFFF_FFFF_FFFFu128,
            decreases k - j,
        {
            let cur = self.price_history[n - 1 - j];
            let prev = self.price_history[n - 2 - j];
            let a: u64 = if cur.high >= cur.low {
                cur.high - cur.low
            } else {
                0
            };
            let b: u64 = if cur.high >= prev.close {
                cur.high - prev.close
            } else {
                prev.close - cur.high
            };
            let c: u64 = if cur.low >= prev.close {
                cur.low - prev.close
            } else {
                prev.close - cur.low
            };
            let tr: u64 = if a >= b && a >= c {
                a
            } else if b >= c {
                b
            } else {
                c
            };
            assert(tr == true_range(h, n - (j + 1))) by {
                assert(h[n - (j + 1)] == cur);
                assert(h[n - (j + 1) - 1] == prev);
            }
            sum = sum + tr as u128;
            j = j + 1;
        }
        assert(sum <= 0xFFFF_FFFF_FFFF_FFFFu128 * 0xFFFF_FFFF_FFFF_FFFFu128) by (nonlinear_arith)
            requires
                sum <= j * 0xFFFF_FFFF_FFFF_FFFFu128,
                j <= 0xFFFF_FFFF_FFFF_FFFFu128,
        ;
        let atr_value: u128 = sum / k as u128;
        assert(atr_value <= 0xFFFF_FFFF_FFFF_FFFF) by {
            vstd::arithmetic::div_mod::lemma_div_is_ordered(sum as int, k as int * 0xFFFF_FFFF_FFFF_FFFF, k as int);
            vstd::arithmetic::div_mod::lemma_div_multiples_vanish(0xFFFF_FFFF_FFFF_FFFF, k as int);
            assert(k as int * 0xFFFF_FFFF_FFFF_FFFF == 0xFFFF_FFFF_FFFF_FFFF * k as int) by (nonlinear_arith);
        }
        let atr_value: u64 = atr_value as u64;
        let ghost pushed = self.atr_history@.push(atr_value);
        self.atr_history.push_back(atr_value);
        if self.atr_history.len() > ATR_SMOOTHING {
            let _ = self.atr_history.pop_front();
        }
        assert(self.atr_history@ =~= smoothing_push(old(self).atr_history@, atr_value));
        let ghost s = self.atr_history@;
        let m = self.atr_history.len();
        let mut total: u128 = 0;
        let mut i: usize = 0;
        while i < m
            invariant
                m == s.len(),
                s == self.atr_history@,
                1 <= m <= ATR_SMOOTHING,
                i <= m,
                total == seq_sum(s.subrange(0, i as int)),
                total <= i * 0xFFFF_FFFF_FFFF_FFFFu128,
            decreases m - i,
        {
            assert(s.subrange(0, i as int + 1).drop_last() =~= s.subrange(0, i as int));
            total = total + self.atr_history[i] as u128;
            i = i + 1;
        }
        assert(s.subrange(0, m as int) =~= s);
        let avg: u128 = total / m as u128;
        assert(avg <= 0xFFFF_FFFF_FFFF_FFFF) by {
            vstd::arithmetic::div_mod::lemma_div_is_ordered(total as int, m as int * 0xFFFF_FFFF_FFFF_FFFF, m as int);
            vstd::arithmetic::div_mod::lemma_div_multiples_vanish(0xFFFF_FFFF_FFFF_FFFF, m as int);
            assert(m as int * 0xFFFF_FFFF_FFFF_FFFF == 0xFFFF_FFFF_FFFF_FFFF * m as int) by (nonlinear_arith);
        }
        avg as u64
    }

    /// Records the best bid and ask read at `now` and, once two points exist, refreshes the
    /// current ATR.
    pub fn add_price_at(&mut self, bid: u64, ask: u64, now: u64)
        requires
            old(self).wf(),
        ensures
            final(self).wf(),
            final(self).period() == old(self).period(),
            ({
                let t = old(self).history().push(
                    PricePoint { timestamp_ms: now, high: ask, low: bid, close: ((bid + ask) / 2) as u64 },
                );
                final(self).history() == if t.len() > old(self).period() + 1 {
                    t.drop_first()
                } else {
                    t
                }
            }),
            final(self).history().len() < 2 ==> final(self).atr() == old(self).atr()
                && final(self).recent_atrs() == old(self).recent_atrs(),
            final(self).history().len() >= 2 ==> {
                &&& final(self).recent_atrs() == smoothing_push(
                    old(self).recent_atrs(),
                    raw_atr(final(self).history(), final(self).period() as int) as u64,
                )
                &&& final(self).atr() == seq_sum(final(self).recent_atrs()) / (final(self).recent_atrs().len() as int)
            },
    {
        let mid: u64 = ((bid as u128 + ask as u128) / 2) as u64;
        let point = PricePoint { timestamp_ms: now, high: ask, low: bid, close: mid };
        self.price_history.push_back(point);
        if self.price_history.len() > self.atr_period && self.price_history.len() - 1 > self.atr_period {
            let _ = self.price_history.pop_front();
        }
        if self.price_history.len() >= 2 {
            self.current_atr = self.calculate_atr();
        }
    }

    /// `add_price_at` stamped with the current time.
    pub fn add_price(&mut self, bid: u64, ask: u64)
        requires
            old(self).wf(),
        ensures
            final(self).wf(),
            final(self).period() == old(self).period(),
    {
        let now = now_millis();
        self.add_price_at(bid, ask, now);
    }

    pub fn get_atr(&self) -> (r: u64)
        ensures
            r == self.atr(),
    {
        self.current_atr
    }

    /// The current ATR over `current_price`, in millionths; 0 for a zero price.
    pub fn get_atr_pct(&self, current_price: u64) -> (r: u128)
        ensures
            r == atr_pct_of(self.atr(), current_price),
    {
        if current_price == 0 {
            return 0;
        }
        let scaled: u128 = self.current_atr as u128 * 1_000_000;
        assert(scaled <= 0xFFFF_FFFF_FFFF_FFFFu128 * 1_000_000) by (nonlinear_arith)
            requires
                scaled == self.current_atr as u128 * 1_000_000,
                self.current_atr <= 0xFFFF_FFFF_FFFF_FFFFu64,
        ;
        scaled / current_price as u128
    }

    fn adjusted(&self, base_pct: u64, multiplier: u64, entry_price: u64, min_pct: u64, max_pct: u64) -> (r: u64)
        requires
            min_pct <= max_pct,
        ensures
            r == adjusted_pct(base_pct, atr_pct_of(self.atr(), entry_price), multiplier, min_pct, max_pct),
    {
        let atr_pct = self.get_atr_pct(entry_price);
        assert(atr_pct <= 0xFFFF_FFFF_FFFF_FFFFu128 * 1_000_000) by {
            if entry_price > 0 {
                vstd::arithmetic::div_mod::lemma_div_is_ordered_by_denominator(self.atr() * 1_000_000, 1, entry_price as int);
            }
        }
        let extra: u128 = match atr_pct.checked_mul(multiplier as u128) {
            Some(product) => product / 1_000_000,
            None => {
                // The product exceeds 2^128, so the adjusted value exceeds any `u64` bound.
                assert(atr_pct * multiplier / 1_000_000 > 0xFFFF_FFFF_FFFF_FFFF) by {
                    vstd::arithmetic::div_mod::lemma_div_is_ordered(
                        u128::MAX as int + 1,
                        atr_pct * multiplier,
                        1_000_000,
                    );
                }
                return max_pct;
            },
        };
        let v: u128 = base_pct as u128 + extra;
        if v < min_pct as u128 {
            min_pct
        } else if v > max_pct as u128 {
            max_pct
        } else {
            v as u64
        }
    }

    /// Stop distance in millionths of the entry price: the base plus the ATR share times
    /// the multiplier, clamped to `[min_pct, max_pct]`.
    pub fn suggest_stop_loss(&self, base_pct: u64, multiplier: u64, entry_price: u64, min_pct: u64, max_pct: u64) -> (r: u64)
        requires
            min_pct <= max_pct,
        ensures
            r == adjusted_pct(base_pct, atr_pct_of(self.atr(), entry_price), multiplier, min_pct, max_pct),
    {
        self.adjusted(base_pct, multiplier, entry_price, min_pct, max_pct)
    }

    /// Target distance in millionths of the entry price, by the same rule as the stop.
    pub fn suggest_take_profit(&self, base_pct: u64, multiplier: u64, entry_price: u64, min_pct: u64, max_pct: u64) -> (r: u64)
        requires
            min_pct <= max_pct,
        ensures
            r == adjusted_pct(base_pct, atr_pct_of(self.atr(), entry_price), multiplier, min_pct, max_pct),
    {
        self.adjusted(base_pct, multiplier, entry_price, min_pct, max_pct)
    }

    /// Low below 0.5% ATR over price, medium below 2%, high otherwise.
    pub fn get_volatility_regime(&self, entry_price: u64) -> (r: VolatilityRegime)
        ensures
            r == regime_of(atr_pct_of(self.atr(), entry_price)),
    {
        let atr_pct = self.get_atr_pct(entry_price);
        if atr_pct < LOW_VOLATILITY_PPM as u128 {
            VolatilityRegime::Low
        } else if atr_pct < HIGH_VOLATILITY_PPM as u128 {
            VolatilityRegime::Medium
        } else {
            VolatilityRegime::High
        }
    }

    /// Position size factor in millionths: 1.5 in low, 1 in medium, 0.5 in high volatility.
    pub fn position_size_multiplier(&self, entry_price: u64) -> (r: u64)
        ensures
            r == match regime_of(atr_pct_of(self.atr(), entry_price)) {
                VolatilityRegime::Low => 1_500_000u64,
                VolatilityRegime::Medium => 1_000_000u64,
                VolatilityRegime::High => 500_000u64,
            },
    {
        match self.get_volatility_regime(entry_price) {
            VolatilityRegime::Low => 1_500_000,
            VolatilityRegime::Medium => 1_000_000,
            VolatilityRegime::High => 500_000,
        }
    }
}

impl Default for VolatilityCalculator {
    fn default() -> (r: Self)
        ensures
            r.wf(),
            r.period() == 14,
            r.history() == Seq::<PricePoint>::empty(),
            r.atr() == 0,
    {
        VolatilityCalculator::new(14)
    }
}

/// Stop and target for a position opened at `entry_price`, from the current volatility.
/// Percentages and the size factor are in millionths; prices in ticks.
#[derive(Debug, Clone, Copy, PartialEq, Eq)]
pub struct DynamicRiskParams {
    pub stop_loss_pct: u64,
    pub take_profit_pct: u64,
    pub stop_loss_price: u64,
    pub take_profit_price: u64,
    pub position_size_multiplier: u64,
    pub atr_value: u64,
    pub volatility_regime: VolatilityRegime,
}

/// Least and greatest stop distance, in millionths.
pub const MIN_STOP_PCT: u64 = 5_000;
pub const MAX_STOP_PCT: u64 = 50_000;

/// Least and greatest target distance, in millionths.
pub const MIN_TARGET_PCT: u64 = 10_000;
pub const MAX_TARGET_PCT: u64 = 100_000;

/// `price` moved by `pct` millionths of itself, down or up, rounded down.
pub open spec fn shifted_price(price: u64, pct: u64, up: bool) -> int {
    if up {
        price * (SCALE + pct) / (SCALE as int)
    } else {
        price * (SCALE - pct) / (SCALE as int)
    }
}

pub(crate) fn shift_price(price: u64, pct: u64, up: bool) -> (r: Option<u64>)
    requires
        !up ==> pct <= SCALE,
    ensures
        r == if shifted_price(price, pct, up) <= u64::MAX {
            Some(shifted_price(price, pct, up) as u64)
        } else {
            None::<u64>
        },
{
    let factor: u128 = if up {
        1_000_000 + pct as u128
    } else {
        1_000_000 - pct as u128
    };
    match (price as u128).checked_mul(factor) {
        Some(product) => {
            let shifted: u128 = product / 1_000_000;
            if shifted > 0xFFFF_FFFF_FFFF_FFFFu128 {
                None
            } else {
                Some(shifted as u64)
            }
        },
        None => {
            assert(price as int * factor / 1_000_000 > 0xFFFF_FFFF_FFFF_FFFF) by {
                vstd::arithmetic::div_mod::lemma_div_is_ordered(u128::MAX as int + 1, price as int * factor, 1_000_000);
            }
            None
        },
    }
}

/// The parameters `DynamicRiskParams::calculate` gives for a calculator whose current
/// ATR is `atr`; `None` when a price would pass `u64::MAX`.
pub open spec fn risk_params_of(
    atr: u64,
    entry_price: u64,
    side: crate::strategy::TradingSide,
    base_sl_pct: u64,
    base_tp_pct: u64,
    volatility_multiplier: u32,
) -> Option<DynamicRiskParams> {
    let atr_pct = atr_pct_of(atr, entry_price);
    let sl = adjusted_pct(base_sl_pct, atr_pct, volatility_multiplier as u64, MIN_STOP_PCT, MAX_STOP_PCT);
    let tp = adjusted_pct(base_tp_pct, atr_pct, (volatility_multiplier as u64 * 3 / 2) as u64, MIN_TARGET_PCT, MAX_TARGET_PCT);
    let buy = side == crate::strategy::TradingSide::Buy;
    let sl_price = shifted_price(entry_price, sl as u64, !buy);
    let tp_price = shifted_price(entry_price, tp as u64, buy);
    if sl_price <= u64::MAX && tp_price <= u64::MAX {
        Some(DynamicRiskParams {
            stop_loss_pct: sl as u64,
            take_profit_pct: tp as u64,
            stop_loss_price: sl_price as u64,
            take_profit_price: tp_price as u64,
            position_size_multiplier: match regime_of(atr_pct) {
                VolatilityRegime::Low => 1_500_000u64,
                VolatilityRegime::Medium => 1_000_000u64,
                VolatilityRegime::High => 500_000u64,
            },
            atr_value: atr,
            volatility_regime: regime_of(atr_pct),
        })
    } else {
        None
    }
}

impl DynamicRiskParams {
    /// The stop from `base_sl_pct` and the target from `base_tp_pct`, each widened by the
    /// ATR share (the target with 1.5 times the multiplier) and clamped to its bounds; the
    /// stop lies below the entry for a buy and above it for a sell, the target opposite.
    /// Prices that would pass `u64::MAX` are not representable and leave `None`.
    pub fn calculate(
        volatility_calc: &VolatilityCalculator,
        entry_price: u64,
        side: crate::strategy::TradingSide,
        base_sl_pct: u64,
        base_tp_pct: u64,
        volatility_multiplier: u32,
    ) -> (r: Option<Self>)
        ensures
            r == risk_params_of(volatility_calc.atr(), entry_price, side, base_sl_pct, base_tp_pct, volatility_multiplier),
    {
        let stop_loss_pct = volatility_calc.suggest_stop_loss(base_sl_pct, volatility_multiplier as u64, entry_price, MIN_STOP_PCT, MAX_STOP_PCT);
        let tp_multiplier: u64 = volatility_multiplier as u64 * 3 / 2;
        let take_profit_pct = volatility_calc.suggest_take_profit(base_tp_pct, tp_multiplier, entry_price, MIN_TARGET_PCT, MAX_TARGET_PCT);
        let buy = match side {
            crate::strategy::TradingSide::Buy => true,
            crate::strategy::TradingSide::Sell => false,
        };
        let stop_loss_price = match shift_price(entry_price, stop_loss_pct, !buy) {
            Some(p) => p,
            None => return None,
        };
        let take_profit_price = match shift_price(entry_price, take_profit_pct, buy) {
            Some(p) => p,
            None => return None,
        };
        Some(DynamicRiskParams {
            stop_loss_pct,
            take_profit_pct,
            stop_loss_price,
            take_profit_price,
            position_size_multiplier: volatility_calc.position_size_multiplier(entry_price),
            atr_value: volatility_calc.get_atr(),
            volatility_regime: volatility_calc.get_volatility_regime(entry_price),
        })
    }
}

} // verus!
