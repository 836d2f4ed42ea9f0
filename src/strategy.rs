//! The vocabulary of trading decisions taken on the book's signals.
use vstd::prelude::*;
use crate::clock::now_millis;
use crate::fixed::SCALE;
use crate::orderbook::metrics::div_trunc;
use crate::risk::{risk_params_of, shift_price, shifted_price, DynamicRiskParams, VolatilityCalculator};

verus! {

#[derive(Debug, Clone, Copy, PartialEq, Eq)]
pub enum MarketBias {
    StrongLong,
    WeakLong,
    Neutral,
    WeakShort,
    StrongShort,
}

#[derive(Debug, Clone, Copy, PartialEq, Eq)]
pub enum TradingSide {
    Buy,
    Sell,
}

#[derive(Debug, Clone, Copy, PartialEq, Eq)]
pub enum SignalStrength {
    Strong,
    Moderate,
    Weak,
    NoSignal,
}

#[derive(Debug, Clone, Copy, PartialEq, Eq)]
pub enum ExitReason {
    StopLoss,
    TakeProfit,
    SignalReversal,
    Manual,
}

impl MarketBias {
    /// Score of the bias on a scale from -80 (strong short) to 80 (strong long).
    pub fn score(&self) -> (r: i32)
        ensures
            r == match *self {
                MarketBias::StrongLong => 80i32,
                MarketBias::WeakLong => 40i32,
                MarketBias::Neutral => 0i32,
                MarketBias::WeakShort => -40i32,
                MarketBias::StrongShort => -80i32,
            },
    {
        match self {
            MarketBias::StrongLong => 80,
            MarketBias::WeakLong => 40,
            MarketBias::Neutral => 0,
            MarketBias::WeakShort => -40,
            MarketBias::StrongShort => -80,
        }
    }

    /// The side a bias trades on; a neutral bias trades on none.
    pub fn side(&self) -> (r: Option<TradingSide>)
        ensures
            r == match *self {
                MarketBias::StrongLong | MarketBias::WeakLong => Some(TradingSide::Buy),
                MarketBias::WeakShort | MarketBias::StrongShort => Some(TradingSide::Sell),
                MarketBias::Neutral => None::<TradingSide>,
            },
    {
        match self {
            MarketBias::StrongLong | MarketBias::WeakLong => Some(TradingSide::Buy),
            MarketBias::WeakShort | MarketBias::StrongShort => Some(TradingSide::Sell),
            MarketBias::Neutral => None,
        }
    }
}

/// One point of score or confidence, in millionths.
pub const POINT: i64 = 1_000_000;

/// A trading signal. Ratios (imbalance, spread, consistency) are in millionths; volume
/// rates in millionths of a lot per second; whale, pressure and confidence in millionths
/// of a point; the score in whole points from -100 to 100.
#[derive(Debug, Clone, Copy, PartialEq, Eq)]
pub struct TradingSignal {
    pub bias: MarketBias,
    pub score: i32,
    pub confidence: i64,
    pub imbalance: i64,
    pub spread_pct: i64,
    pub liquidity: u64,
    pub latency_ms: u64,
    pub volume_delta_1s: i64,
    pub volume_delta_5s: i64,
    pub whale_score: i64,
    pub pressure_score: i64,
    pub depth_consistency: i64,
    pub momentum_score: i128,
}

/// Inputs of a signal, each within the range its source produces: ratios and scores of
/// the book and the metrics as bounded there, volume rates within the range of `i64`.
pub open spec fn inputs_in_range(imbalance: i64, spread_pct: i64, whale_score: i64, pressure_score: i64, depth_consistency: i64) -> bool {
    &&& -SCALE <= imbalance <= SCALE
    &&& -2 * SCALE <= spread_pct <= 2 * SCALE
    &&& 0 <= whale_score <= 100 * POINT
    &&& -100 * POINT <= pressure_score <= 100 * POINT
    &&& 0 <= depth_consistency <= SCALE
}

pub open spec fn abs(x: int) -> int {
    if x >= 0 { x } else { -x }
}

/// Sign as floating-point `signum` gives it: zero counts as positive.
pub open spec fn sign(x: int) -> int {
    if x >= 0 { 1 } else { -1 }
}

pub open spec fn clamp_score(x: int) -> int {
    if x > 100 { 100 } else if x < -100 { -100 } else { x }
}

pub open spec fn bias_of(imbalance: int) -> MarketBias {
    if imbalance > 700_000 {
        MarketBias::StrongLong
    } else if imbalance > 300_000 {
        MarketBias::WeakLong
    } else if imbalance < -700_000 {
        MarketBias::StrongShort
    } else if imbalance < -300_000 {
        MarketBias::WeakShort
    } else {
        MarketBias::Neutral
    }
}

/// Whole points of `x * factor * weight`, with `x` and `weight` in millionths, truncated.
pub open spec fn weighted_points(x: int, factor: int, weight: int) -> int {
    x * factor * weight / (SCALE as int * SCALE as int)
}

/// Weight of one input: in full when its sign agrees with the imbalance (or the
/// imbalance is zero), else half of it counts against.
pub open spec fn aligned_points(points: int, x: int, imbalance: int) -> int {
    if sign(x) == sign(imbalance) || imbalance == 0 {
        points
    } else {
        -(points / 2)
    }
}

/// Momentum from the short and medium volume rates, weighted 0.4 and 0.6, amplified by
/// 1.2 when it agrees in sign with the imbalance and damped to 0.8 otherwise.
pub open spec fn momentum_of(volume_delta_1s: int, volume_delta_5s: int, imbalance: int) -> int {
    let m5 = 2 * volume_delta_1s + 3 * volume_delta_5s;
    if sign(m5) == sign(imbalance) {
        div_trunc(m5 * 6, 25)
    } else {
        div_trunc(m5 * 4, 25)
    }
}

/// Strength of a signal by its score and confidence (in millionths of a point).
pub open spec fn strength_of(score: int, confidence: int) -> SignalStrength {
    if score >= 70 && confidence >= 70 * POINT {
        SignalStrength::Strong
    } else if score >= 40 && confidence >= 50 * POINT {
        SignalStrength::Moderate
    } else if score >= 20 && confidence >= 30 * POINT {
        SignalStrength::Weak
    } else {
        SignalStrength::NoSignal
    }
}

fn weighted(x: u128, factor: u128, weight: u32) -> (r: i128)
    requires
        x <= 0x8000_0000_0000_0000,
        factor <= 100,
    ensures
        r == weighted_points(x as int, factor as int, weight as int),
        0 <= r <= 0x8000_0000_0000_0000_0000_0000_0000,
{
    assert(x * factor <= 0x8000_0000_0000_0000u128 * 100) by (nonlinear_arith)
        requires
            x <= 0x8000_0000_0000_0000u128,
            factor <= 100,
    ;
    let xf: u128 = x * factor;
    assert(xf * weight as u128 <= 0x8000_0000_0000_0000u128 * 100 * 0xFFFF_FFFFu128) by (nonlinear_arith)
        requires
            xf <= 0x8000_0000_0000_0000u128 * 100,
            weight <= 0xFFFF_FFFFu32,
    ;
    let product: u128 = xf * weight as u128;
    let r: u128 = product / 1_000_000_000_000;
    assert(r <= product) by {
        vstd::arithmetic::div_mod::lemma_div_is_ordered_by_denominator(product as int, 1, 1_000_000_000_000);
    }
    r as i128
}

fn aligned(points: i128, x: i128, imbalance: i64) -> (r: i128)
    requires
        0 <= points <= 0x8000_0000_0000_0000_0000_0000_0000,
    ensures
        r == aligned_points(points as int, x as int, imbalance as int),
{
    if (x >= 0) == (imbalance >= 0) || imbalance == 0 {
        points
    } else {
        -(points / 2)
    }
}

fn abs_of(x: i64) -> (r: u128)
    ensures
        r == abs(x as int),
{
    if x >= 0 {
        x as u128
    } else {
        (-(x as i128)) as u128
    }
}

pub struct Strategy {
    min_score: i32,
    min_confidence: i64,
    max_spread_pct: i64,
    min_liquidity: u64,
    max_latency_ms: u64,
    imbalance_weight: u32,
    volume_delta_weight: u32,
    whale_weight: u32,
    pressure_weight: u32,
    depth_consistency_weight: u32,
}

impl Strategy {
    pub closed spec fn thresholds(&self) -> (i32, i64, i64, u64, u64) {
        (self.min_score, self.min_confidence, self.max_spread_pct, self.min_liquidity, self.max_latency_ms)
    }

    pub closed spec fn weights(&self) -> (u32, u32, u32, u32, u32) {
        (self.imbalance_weight, self.volume_delta_weight, self.whale_weight, self.pressure_weight, self.depth_consistency_weight)
    }

    /// Score of the basic analysis: imbalance points less penalties for a wide spread,
    /// thin liquidity and latency, clamped to [-100, 100].
    pub open spec fn score_of(&self, imbalance: int, spread_pct: int, liquidity: int, latency_ms: int) -> int {
        let (_, _, max_spread, min_liquidity, max_latency) = self.thresholds();
        let spread_penalty = if spread_pct > max_spread { 30int } else { 0 };
        let liquidity_penalty = if 2 * liquidity < min_liquidity { 20int } else if liquidity < min_liquidity { 10 } else { 0 };
        let latency_penalty = if latency_ms > max_latency { 20int } else if latency_ms > max_latency / 2 { 10 } else { 0 };
        clamp_score(abs(imbalance) * 100 / (SCALE as int) - spread_penalty - liquidity_penalty - latency_penalty)
    }

    /// Confidence from the spread: full within half the maximum, 0.7 within it, else 0.3.
    pub open spec fn spread_confidence(&self, spread_pct: int) -> int {
        let max_spread = self.thresholds().2;
        if 2 * spread_pct <= max_spread { SCALE as int } else if spread_pct <= max_spread { 700_000 } else { 300_000 }
    }

    /// Confidence from liquidity: its share of the minimum, at most 1.
    pub open spec fn liquidity_confidence(&self, liquidity: int) -> int {
        let min_liquidity = self.thresholds().3;
        if min_liquidity == 0 || liquidity >= min_liquidity { SCALE as int } else { liquidity * (SCALE as int) / (min_liquidity as int) }
    }

    /// Confidence of the basic analysis in millionths of a point (0 to 100 points).
    pub open spec fn confidence_of(&self, imbalance: int, spread_pct: int, liquidity: int) -> int {
        let imbalance_conf = if abs(imbalance) < SCALE { abs(imbalance) } else { SCALE as int };
        imbalance_conf * 50 + self.spread_confidence(spread_pct) * 30 + self.liquidity_confidence(liquidity) * 20
    }

    /// Score of the enhanced analysis: weighted imbalance, volume momentum, whales,
    /// pressure and depth consistency, less penalties, clamped to [-100, 100].
    pub open spec fn enhanced_score_of(
        &self,
        imbalance: int,
        spread_pct: int,
        liquidity: int,
        latency_ms: int,
        volume_delta_5s: int,
        whale_score: int,
        pressure_score: int,
        depth_consistency: int,
    ) -> int {
        let (_, _, max_spread, min_liquidity, max_latency) = self.thresholds();
        let (wi, wv, ww, wp, wd) = self.weights();
        let total = weighted_points(abs(imbalance), 100, wi as int)
            + aligned_points(weighted_points(abs(volume_delta_5s), 100, wv as int), volume_delta_5s, imbalance)
            + weighted_points(whale_score, 1, ww as int)
            + aligned_points(weighted_points(abs(pressure_score), 1, wp as int), pressure_score, imbalance)
            + weighted_points(depth_consistency, 100, wd as int)
            - (if spread_pct > max_spread { 30int } else { 0 })
            - (if 2 * liquidity < min_liquidity { 20int } else { 0 })
            - (if latency_ms > max_latency { 20int } else { 0 });
        clamp_score(total)
    }

    /// Confidence of the enhanced analysis in millionths of a point.
    pub open spec fn enhanced_confidence_of(&self, imbalance: int, spread_pct: int, liquidity: int, depth_consistency: int, whale_score: int) -> int {
        let imbalance_conf = if abs(imbalance) < SCALE { abs(imbalance) } else { SCALE as int };
        let whale_conf = if whale_score / 100 < SCALE { whale_score / 100 } else { SCALE as int };
        imbalance_conf * 30 + self.spread_confidence(spread_pct) * 20 + self.liquidity_confidence(liquidity) * 15
            + depth_consistency * 20 + whale_conf * 15
    }

    /// Default weights: 0.30 imbalance, 0.25 volume momentum, 0.20 whales, 0.15
    /// pressure, 0.10 depth consistency.
    pub fn new(min_score: i32, min_confidence: i64, max_spread_pct: i64, min_liquidity: u64, max_latency_ms: u64) -> (r: Self)
        ensures
            r.thresholds() == (min_score, min_confidence, max_spread_pct, min_liquidity, max_latency_ms),
            r.weights() == (300_000u32, 250_000u32, 200_000u32, 150_000u32, 100_000u32),
    {
        Strategy::with_weights(min_score, min_confidence, max_spread_pct, min_liquidity, max_latency_ms, 300_000, 250_000, 200_000, 150_000, 100_000)
    }

    /// A strategy with the given weights, each in millionths.
    pub fn with_weights(
        min_score: i32,
        min_confidence: i64,
        max_spread_pct: i64,
        min_liquidity: u64,
        max_latency_ms: u64,
        imbalance_weight: u32,
        volume_delta_weight: u32,
        whale_weight: u32,
        pressure_weight: u32,
        depth_consistency_weight: u32,
    ) -> (r: Self)
        ensures
            r.thresholds() == (min_score, min_confidence, max_spread_pct, min_liquidity, max_latency_ms),
            r.weights() == (imbalance_weight, volume_delta_weight, whale_weight, pressure_weight, depth_consistency_weight),
    {
        Strategy {
            min_score,
            min_confidence,
            max_spread_pct,
            min_liquidity,
            max_latency_ms,
            imbalance_weight,
            volume_delta_weight,
            whale_weight,
            pressure_weight,
            depth_consistency_weight,
        }
    }

    fn calculate_bias(&self, imbalance: i64) -> (r: MarketBias)
        ensures
            r == bias_of(imbalance as int),
    {
        if imbalance > 700_000 {
            MarketBias::StrongLong
        } else if imbalance > 300_000 {
            MarketBias::WeakLong
        } else if imbalance < -700_000 {
            MarketBias::StrongShort
        } else if imbalance < -300_000 {
            MarketBias::WeakShort
        } else {
            MarketBias::Neutral
        }
    }

    fn penalties(&self, spread_pct: i64, liquidity: u64, latency_ms: u64, graded: bool) -> (r: i64)
        ensures
            r == (if spread_pct > self.thresholds().2 { 30int } else { 0 })
                + (if 2 * liquidity < self.thresholds().3 { 20int } else if graded && liquidity < self.thresholds().3 { 10 } else { 0 })
                + (if latency_ms > self.thresholds().4 { 20int } else if graded && latency_ms > self.thresholds().4 / 2 { 10 } else { 0 }),
    {
        let mut p: i64 = 0;
        if spread_pct > self.max_spread_pct {
            p = p + 30;
        }
        if (liquidity as u128) * 2 < self.min_liquidity as u128 {
            p = p + 20;
        } else if graded && liquidity < self.min_liquidity {
            p = p + 10;
        }
        if latency_ms > self.max_latency_ms {
            p = p + 20;
        } else if graded && latency_ms > self.max_latency_ms / 2 {
            p = p + 10;
        }
        p
    }

    fn spread_conf(&self, spread_pct: i64) -> (r: i64)
        ensures
            r == self.spread_confidence(spread_pct as int),
    {
        if (spread_pct as i128) * 2 <= self.max_spread_pct as i128 {
            1_000_000
        } else if spread_pct <= self.max_spread_pct {
            700_000
        } else {
            300_000
        }
    }

    fn liquidity_conf(&self, liquidity: u64) -> (r: i64)
        ensures
            r == self.liquidity_confidence(liquidity as int),
            0 <= r <= SCALE,
    {
        if self.min_liquidity == 0 || liquidity >= self.min_liquidity {
            1_000_000
        } else {
            let share: u128 = liquidity as u128 * 1_000_000 / self.min_liquidity as u128;
            assert(share <= 1_000_000) by {
                vstd::arithmetic::div_mod::lemma_div_is_ordered(liquidity as int * 1_000_000, self.min_liquidity as int * 1_000_000, self.min_liquidity as int);
                vstd::arithmetic::div_mod::lemma_div_multiples_vanish(1_000_000, self.min_liquidity as int);
                assert(liquidity as int * 1_000_000 <= self.min_liquidity as int * 1_000_000) by (nonlinear_arith)
                    requires
                        liquidity < self.min_liquidity,
                ;
                assert(self.min_liquidity as int * 1_000_000 == 1_000_000 * self.min_liquidity as int) by (nonlinear_arith);
            }
            share as i64
        }
    }

    /// The basic analysis of the book's imbalance, spread, liquidity and latency.
    pub fn analyze(&self, imbalance: i64, spread_pct: i64, liquidity: u64, latency_ms: u64) -> (r: TradingSignal)
        requires
            -SCALE <= imbalance <= SCALE,
        ensures
            r.bias == bias_of(imbalance as int),
            r.score == self.score_of(imbalance as int, spread_pct as int, liquidity as int, latency_ms as int),
            r.confidence == self.confidence_of(imbalance as int, spread_pct as int, liquidity as int),
            r.imbalance == imbalance && r.spread_pct == spread_pct && r.liquidity == liquidity && r.latency_ms == latency_ms,
            r.volume_delta_1s == 0 && r.volume_delta_5s == 0 && r.whale_score == 0 && r.pressure_score == 0,
            r.depth_consistency == 0 && r.momentum_score == 0,
    {
        let bias = self.calculate_bias(imbalance);
        let abs_imbalance: i64 = if imbalance >= 0 { imbalance } else { -imbalance };
        let raw: i64 = abs_imbalance * 100 / 1_000_000 - self.penalties(spread_pct, liquidity, latency_ms, true);
        let score: i32 = if raw > 100 { 100 } else if raw < -100 { -100 } else { raw as i32 };
        let confidence = abs_imbalance * 50 + self.spread_conf(spread_pct) * 30 + self.liquidity_conf(liquidity) * 20;
        TradingSignal {
            bias,
            score,
            confidence,
            imbalance,
            spread_pct,
            liquidity,
            latency_ms,
            volume_delta_1s: 0,
            volume_delta_5s: 0,
            whale_score: 0,
            pressure_score: 0,
            depth_consistency: 0,
            momentum_score: 0,
        }
    }

    /// The enhanced analysis, which adds volume momentum, whales, pressure and depth
    /// consistency to the book's readings.
    pub fn analyze_enhanced(
        &self,
        imbalance: i64,
        spread_pct: i64,
        liquidity: u64,
        latency_ms: u64,
        volume_delta_1s: i64,
        volume_delta_5s: i64,
        whale_score: i64,
        pressure_score: i64,
        depth_consistency: i64,
    ) -> (r: TradingSignal)
        requires
            inputs_in_range(imbalance, spread_pct, whale_score, pressure_score, depth_consistency),
        ensures
            r.bias == bias_of(imbalance as int),
            r.score == self.enhanced_score_of(imbalance as int, spread_pct as int, liquidity as int, latency_ms as int,
                volume_delta_5s as int, whale_score as int, pressure_score as int, depth_consistency as int),
            r.confidence == self.enhanced_confidence_of(imbalance as int, spread_pct as int, liquidity as int,
                depth_consistency as int, whale_score as int),
            r.momentum_score == momentum_of(volume_delta_1s as int, volume_delta_5s as int, imbalance as int),
            r.imbalance == imbalance && r.spread_pct == spread_pct && r.liquidity == liquidity && r.latency_ms == latency_ms,
            r.volume_delta_1s == volume_delta_1s && r.volume_delta_5s == volume_delta_5s,
            r.whale_score == whale_score && r.pressure_score == pressure_score && r.depth_consistency == depth_consistency,
    {
        let bias = self.calculate_bias(imbalance);
        let momentum_score = calculate_momentum_score(volume_delta_1s, volume_delta_5s, imbalance);
        let score = self.calculate_enhanced_score(imbalance, spread_pct, liquidity, latency_ms, volume_delta_5s, whale_score, pressure_score, depth_consistency);
        let abs_imbalance: i64 = if imbalance >= 0 { imbalance } else { -imbalance };
        let whale_conf: i64 = if whale_score / 100 < 1_000_000 { whale_score / 100 } else { 1_000_000 };
        let confidence = abs_imbalance * 30 + self.spread_conf(spread_pct) * 20 + self.liquidity_conf(liquidity) * 15
            + depth_consistency * 20 + whale_conf * 15;
        TradingSignal {
            bias,
            score,
            confidence,
            imbalance,
            spread_pct,
            liquidity,
            latency_ms,
            volume_delta_1s,
            volume_delta_5s,
            whale_score,
            pressure_score,
            depth_consistency,
            momentum_score,
        }
    }

    fn calculate_enhanced_score(
        &self,
        imbalance: i64,
        spread_pct: i64,
        liquidity: u64,
        latency_ms: u64,
        volume_delta_5s: i64,
        whale_score: i64,
        pressure_score: i64,
        depth_consistency: i64,
    ) -> (r: i32)
        requires
            inputs_in_range(imbalance, spread_pct, whale_score, pressure_score, depth_consistency),
        ensures
            r == self.enhanced_score_of(imbalance as int, spread_pct as int, liquidity as int, latency_ms as int,
                volume_delta_5s as int, whale_score as int, pressure_score as int, depth_consistency as int),
    {
        let imbalance_points = weighted(abs_of(imbalance), 100, self.imbalance_weight);
        let delta_points = aligned(weighted(abs_of(volume_delta_5s), 100, self.volume_delta_weight), volume_delta_5s as i128, imbalance);
        let whale_points = weighted(whale_score as u128, 1, self.whale_weight);
        let pressure_points = aligned(weighted(abs_of(pressure_score), 1, self.pressure_weight), pressure_score as i128, imbalance);
        let depth_points = weighted(depth_consistency as u128, 100, self.depth_consistency_weight);
        let total: i128 = imbalance_points + delta_points + whale_points + pressure_points + depth_points
            - self.penalties(spread_pct, liquidity, latency_ms, false) as i128;
        if total > 100 {
            100
        } else if total < -100 {
            -100
        } else {
            total as i32
        }
    }

    /// Whether a signal clears the strategy's thresholds of score, confidence, spread,
    /// liquidity and latency. The spacing between trades is not judged here.
    pub fn should_trade(&self, signal: &TradingSignal, min_time_between_ms: u64) -> (r: bool)
        ensures
            r == (signal.score >= self.thresholds().0 && signal.confidence >= self.thresholds().1
                && signal.spread_pct <= self.thresholds().2 && signal.liquidity >= self.thresholds().3
                && signal.latency_ms <= self.thresholds().4),
    {
        if signal.score < self.min_score {
            return false;
        }
        if signal.confidence < self.min_confidence {
            return false;
        }
        if signal.spread_pct > self.max_spread_pct {
            return false;
        }
        if signal.liquidity < self.min_liquidity {
            return false;
        }
        if signal.latency_ms > self.max_latency_ms {
            return false;
        }
        true
    }

    pub fn get_signal_strength(signal: &TradingSignal) -> (r: SignalStrength)
        ensures
            r == strength_of(signal.score as int, signal.confidence as int),
    {
        if signal.score >= 70 && signal.confidence >= 70 * POINT {
            SignalStrength::Strong
        } else if signal.score >= 40 && signal.confidence >= 50 * POINT {
            SignalStrength::Moderate
        } else if signal.score >= 20 && signal.confidence >= 30 * POINT {
            SignalStrength::Weak
        } else {
            SignalStrength::NoSignal
        }
    }
}

fn calculate_momentum_score(volume_delta_1s: i64, volume_delta_5s: i64, imbalance: i64) -> (r: i128)
    ensures
        r == momentum_of(volume_delta_1s as int, volume_delta_5s as int, imbalance as int),
{
    let m5: i128 = 2 * volume_delta_1s as i128 + 3 * volume_delta_5s as i128;
    let factor: i128 = if (m5 >= 0) == (imbalance >= 0) { 6 } else { 4 };
    let scaled: i128 = m5 * factor;
    if scaled >= 0 {
        scaled / 25
    } else {
        -((-scaled) / 25)
    }
}

/// An open position. Prices are in ticks, the size in lots, the opening time in seconds.
#[derive(Debug, Clone, Copy, PartialEq, Eq)]
pub struct Position {
    pub side: TradingSide,
    pub entry_price: u64,
    pub size: u32,
    pub stop_loss: u64,
    pub take_profit: u64,
    pub opened_at: u64,
}

/// Holds at most one open position.
pub struct PositionManager {
    position: Option<Position>,
}

/// The stop lies below the entry for a buy and above it for a sell; the target opposite.
pub open spec fn exit_of(pos: Position, current_price: u64) -> Option<ExitReason> {
    match pos.side {
        TradingSide::Buy => if current_price <= pos.stop_loss {
            Some(ExitReason::StopLoss)
        } else if current_price >= pos.take_profit {
            Some(ExitReason::TakeProfit)
        } else {
            None
        },
        TradingSide::Sell => if current_price >= pos.stop_loss {
            Some(ExitReason::StopLoss)
        } else if current_price <= pos.take_profit {
            Some(ExitReason::TakeProfit)
        } else {
            None
        },
    }
}

/// Profit in millionths of a percent of the entry price.
pub open spec fn pnl_of(pos: Position, current_price: u64) -> int {
    let change: int = match pos.side {
        TradingSide::Buy => current_price - pos.entry_price,
        TradingSide::Sell => pos.entry_price - current_price,
    };
    div_trunc(change * 100 * (SCALE as int), pos.entry_price as int)
}

impl PositionManager {
    pub closed spec fn current(&self) -> Option<Position> {
        self.position
    }

    pub fn new() -> (r: Self)
        ensures
            r.current() == None::<Position>,
    {
        PositionManager { position: None }
    }

    pub fn has_position(&self) -> (r: bool)
        ensures
            r == self.current().is_some(),
    {
        self.position.is_some()
    }

    /// Opens a position at `now_secs` with stop and target `stop_loss_pct` and
    /// `take_profit_pct` (millionths) away from the entry. A price that would fall below
    /// zero or pass `u64::MAX` cannot be held: nothing is opened and `false` is returned.
    pub fn open_position_at(
        &mut self,
        side: TradingSide,
        entry_price: u64,
        size: u32,
        stop_loss_pct: u64,
        take_profit_pct: u64,
        now_secs: u64,
    ) -> (r: bool)
        ensures
            ({
                let buy = side == TradingSide::Buy;
                let sl = shifted_price(entry_price, stop_loss_pct, !buy);
                let tp = shifted_price(entry_price, take_profit_pct, buy);
                let fits = (buy ==> stop_loss_pct <= SCALE) && (!buy ==> take_profit_pct <= SCALE)
                    && sl <= u64::MAX && tp <= u64::MAX;
                &&& r == fits
                &&& fits ==> final(self).current() == Some(Position {
                    side,
                    entry_price,
                    size,
                    stop_loss: sl as u64,
                    take_profit: tp as u64,
                    opened_at: now_secs,
                })
                &&& !fits ==> final(self).current() == old(self).current()
            }),
    {
        let buy = match side {
            TradingSide::Buy => true,
            TradingSide::Sell => false,
        };
        if buy && stop_loss_pct > 1_000_000 {
            return false;
        }
        if !buy && take_profit_pct > 1_000_000 {
            return false;
        }
        let stop_loss = match shift_price(entry_price, stop_loss_pct, !buy) {
            Some(p) => p,
            None => return false,
        };
        let take_profit = match shift_price(entry_price, take_profit_pct, buy) {
            Some(p) => p,
            None => return false,
        };
        self.position = Some(Position { side, entry_price, size, stop_loss, take_profit, opened_at: now_secs });
        true
    }

    /// `open_position_at` stamped with the current time.
    pub fn open_position(&mut self, side: TradingSide, entry_price: u64, size: u32, stop_loss_pct: u64, take_profit_pct: u64) -> (r: bool) {
        let now_secs = now_millis() / 1000;
        self.open_position_at(side, entry_price, size, stop_loss_pct, take_profit_pct, now_secs)
    }

    /// Opens a position with stop and target from the current volatility (see
    /// `DynamicRiskParams::calculate`); nothing is opened when those prices cannot be held.
    pub fn open_position_dynamic_at(
        &mut self,
        side: TradingSide,
        entry_price: u64,
        size: u32,
        volatility_calc: &VolatilityCalculator,
        base_sl_pct: u64,
        base_tp_pct: u64,
        volatility_multiplier: u32,
        now_secs: u64,
    ) -> (r: Option<DynamicRiskParams>)
        ensures
            r is Some ==> final(self).current() == Some(Position {
                side,
                entry_price,
                size,
                stop_loss: r->0.stop_loss_price,
                take_profit: r->0.take_profit_price,
                opened_at: now_secs,
            }),
            r is None ==> final(self).current() == old(self).current(),
            r == risk_params_of(volatility_calc.atr(), entry_price, side, base_sl_pct, base_tp_pct, volatility_multiplier),
    {
        let params = DynamicRiskParams::calculate(volatility_calc, entry_price, side, base_sl_pct, base_tp_pct, volatility_multiplier);
        if let Some(p) = params {
            self.position = Some(Position {
                side,
                entry_price,
                size,
                stop_loss: p.stop_loss_price,
                take_profit: p.take_profit_price,
                opened_at: now_secs,
            });
        }
        params
    }

    /// `open_position_dynamic_at` stamped with the current time.
    pub fn open_position_dynamic(
        &mut self,
        side: TradingSide,
        entry_price: u64,
        size: u32,
        volatility_calc: &VolatilityCalculator,
        base_sl_pct: u64,
        base_tp_pct: u64,
        volatility_multiplier: u32,
    ) -> (r: Option<DynamicRiskParams>)
        ensures
            r == risk_params_of(volatility_calc.atr(), entry_price, side, base_sl_pct, base_tp_pct, volatility_multiplier),
    {
        let now_secs = now_millis() / 1000;
        self.open_position_dynamic_at(side, entry_price, size, volatility_calc, base_sl_pct, base_tp_pct, volatility_multiplier, now_secs)
    }

    pub fn close_position(&mut self)
        ensures
            final(self).current() == None::<Position>,
    {
        self.position = None;
    }

    pub fn get_position_details(&self) -> (r: Option<Position>)
        ensures
            r == self.current(),
    {
        self.position
    }

    /// Whether the price has reached the open position's stop or target.
    pub fn check_exit(&self, current_price: u64) -> (r: Option<ExitReason>)
        ensures
            r == match self.current() {
                Some(pos) => exit_of(pos, current_price),
                None => None::<ExitReason>,
            },
    {
        match self.position {
            Some(pos) => match pos.side {
                TradingSide::Buy => if current_price <= pos.stop_loss {
                    Some(ExitReason::StopLoss)
                } else if current_price >= pos.take_profit {
                    Some(ExitReason::TakeProfit)
                } else {
                    None
                },
                TradingSide::Sell => if current_price >= pos.stop_loss {
                    Some(ExitReason::StopLoss)
                } else if current_price <= pos.take_profit {
                    Some(ExitReason::TakeProfit)
                } else {
                    None
                },
            },
            None => None,
        }
    }

    /// Profit of the open position at `current_price`, in millionths of a percent; `None`
    /// without a position or with a zero entry price.
    pub fn get_pnl(&self, current_price: u64) -> (r: Option<i128>)
        ensures
            r == match self.current() {
                Some(pos) => if pos.entry_price == 0 { None::<i128> } else { Some(pnl_of(pos, current_price) as i128) },
                None => None::<i128>,
            },
    {
        match self.position {
            Some(pos) => {
                if pos.entry_price == 0 {
                    return None;
                }
                let up = match pos.side {
                    TradingSide::Buy => current_price >= pos.entry_price,
                    TradingSide::Sell => pos.entry_price >= current_price,
                };
                let distance: u128 = if current_price >= pos.entry_price {
                    (current_price - pos.entry_price) as u128
                } else {
                    (pos.entry_price - current_price) as u128
                };
                let scaled: u128 = distance * 100_000_000 / pos.entry_price as u128;
                assert(scaled <= distance * 100_000_000) by {
                    vstd::arithmetic::div_mod::lemma_div_is_ordered_by_denominator((distance * 100_000_000) as int, 1, pos.entry_price as int);
                }
                if up {
                    Some(scaled as i128)
                } else {
                    Some(-(scaled as i128))
                }
            },
            None => None,
        }
    }
}

impl Default for PositionManager {
    fn default() -> (r: Self)
        ensures
            r.current() == None::<Position>,
    {
        PositionManager::new()
    }
}

} // verus!
