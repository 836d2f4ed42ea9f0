//! Classifies whether the book is fit to trade on, against a self-calibrating baseline
//! of normal spread and liquidity.
use vstd::prelude::*;
use std::collections::VecDeque;
use crate::clock::now_millis;
use crate::fixed::SCALE;
use crate::orderbook::manager::{latency_of, pairs, spread_of, top_volume, Orderbook, NO_ASK, NO_BID};

verus! {

/// Measurements kept for the baseline.
pub const MAX_MEASUREMENTS: usize = 100;

/// Measurements needed before spread and liquidity are judged.
pub const MIN_CALIBRATION: usize = 10;

/// Depth over which liquidity is measured.
pub const LIQUIDITY_DEPTH: usize = 10;

#[derive(Debug, Clone, Copy, PartialEq, Eq)]
pub enum ValidationResult {
    Valid,
    WideSpread,
    LowLiquidity,
    StaleData,
    PriceAnomaly,
    InsufficientDepth,
}

impl ValidationResult {
    /// A readable name of the outcome.
    pub fn to_string(&self) -> (r: &'static str)
        ensures
            *self == ValidationResult::Valid ==> r@ == "Valid"@,
            *self == ValidationResult::WideSpread ==> r@ == "Wide Spread"@,
            *self == ValidationResult::LowLiquidity ==> r@ == "Low Liquidity"@,
            *self == ValidationResult::StaleData ==> r@ == "Stale Data"@,
            *self == ValidationResult::PriceAnomaly ==> r@ == "Price Anomaly"@,
            *self == ValidationResult::InsufficientDepth ==> r@ == "Insufficient Depth"@,
    {
        match self {
            ValidationResult::Valid => "Valid",
            ValidationResult::WideSpread => "Wide Spread",
            ValidationResult::LowLiquidity => "Low Liquidity",
            ValidationResult::StaleData => "Stale Data",
            ValidationResult::PriceAnomaly => "Price Anomaly",
            ValidationResult::InsufficientDepth => "Insufficient Depth",
        }
    }

    /// Trading is allowed only on a valid book.
    pub fn is_valid(&self) -> (r: bool)
        ensures
            r == (*self == ValidationResult::Valid),
    {
        match self {
            ValidationResult::Valid => true,
            _ => false,
        }
    }
}

/// Spread and liquidity seen on one valid book.
#[derive(Debug, Clone, Copy, PartialEq, Eq)]
pub struct Measurement {
    pub timestamp_ms: u64,
    pub spread_pct: i64,
    pub liquidity: u64,
}

/// Thresholds of the validator. Multipliers are in millionths.
#[derive(Debug, Clone, Copy, PartialEq, Eq)]
pub struct ValidationConfig {
    /// A spread above the normal maximum times this is too wide.
    pub max_spread_multiplier: u32,
    /// Liquidity below the normal minimum times this is too low.
    pub min_liquidity_multiplier: u32,
    /// Data older than this, in milliseconds, is stale.
    pub max_data_age_ms: u64,
    /// Levels needed on each side.
    pub min_depth_levels: usize,
    /// A disabled validator passes every book.
    pub enabled: bool,
}

impl Default for ValidationConfig {
    fn default() -> (r: Self)
        ensures
            r == (ValidationConfig {
                max_spread_multiplier: 3_000_000,
                min_liquidity_multiplier: 250_000,
                max_data_age_ms: 5000,
                min_depth_levels: 5,
                enabled: true,
            }),
    {
        ValidationConfig {
            max_spread_multiplier: 3_000_000,
            min_liquidity_multiplier: 250_000,
            max_data_age_ms: 5000,
            min_depth_levels: 5,
            enabled: true,
        }
    }
}

/// What the validator reads of a book and of its own baseline at one instant.
pub struct Reading {
    pub bid: u64,
    pub ask: u64,
    pub bid_depth: int,
    pub ask_depth: int,
    pub latency_ms: u64,
    pub spread: int,
    pub liquidity: int,
    pub calibrated: bool,
    pub normal_max_spread: int,
    pub normal_min_liquidity: int,
}

/// The first condition that holds, in priority order: a crossed book, a book not yet
/// initialised or too thin, stale data, a wide spread, low liquidity; else valid.
/// Spread and liquidity are judged only once the baseline is calibrated.
pub open spec fn classify(x: Reading, config: ValidationConfig) -> ValidationResult {
    if x.bid >= x.ask && x.bid != NO_BID && x.ask != NO_ASK {
        ValidationResult::PriceAnomaly
    } else if x.bid == NO_BID || x.ask == 0 || x.ask == NO_ASK || x.bid_depth < config.min_depth_levels
        || x.ask_depth < config.min_depth_levels {
        ValidationResult::InsufficientDepth
    } else if x.latency_ms > config.max_data_age_ms {
        ValidationResult::StaleData
    } else if x.calibrated && x.spread * (SCALE as int) > x.normal_max_spread * config.max_spread_multiplier {
        ValidationResult::WideSpread
    } else if x.calibrated && x.liquidity * (SCALE as int) < x.normal_min_liquidity * config.min_liquidity_multiplier {
        ValidationResult::LowLiquidity
    } else {
        ValidationResult::Valid
    }
}

/// Index of a percentile (`pct` of 100) in a sorted list of `n` values, kept in bounds.
pub open spec fn percentile_index(n: int, pct: int) -> int {
    if n * pct / 100 < n - 1 {
        n * pct / 100
    } else {
        n - 1
    }
}

pub open spec fn spread_le(a: i64, b: i64) -> bool {
    a <= b
}

pub open spec fn liquidity_le(a: u64, b: u64) -> bool {
    a <= b
}

pub open spec fn spreads_of(m: Seq<Measurement>) -> Seq<i64> {
    m.map_values(|x: Measurement| x.spread_pct)
}

pub open spec fn liquidities_of(m: Seq<Measurement>) -> Seq<u64> {
    m.map_values(|x: Measurement| x.liquidity)
}

/// Relies on `slice::sort_unstable`: the values are permuted into ascending order, which
/// for integers is the one sorted arrangement.
#[verifier::external_body]
fn sort_spreads(v: &mut Vec<i64>)
    ensures
        final(v)@ == old(v)@.sort_by(|a: i64, b: i64| spread_le(a, b)),
{
    v.sort_unstable();
}

/// Relies on `slice::sort_unstable`: the values are permuted into ascending order, which
/// for integers is the one sorted arrangement.
#[verifier::external_body]
fn sort_liquidities(v: &mut Vec<u64>)
    ensures
        final(v)@ == old(v)@.sort_by(|a: u64, b: u64| liquidity_le(a, b)),
{
    v.sort_unstable();
}

/// Sorting keeps the length.
proof fn lemma_sort_len<A>(s: Seq<A>, leq: spec_fn(A, A) -> bool)
    requires
        vstd::relations::total_ordering(leq),
    ensures
        s.sort_by(leq).len() == s.len(),
{
    s.lemma_sort_by_ensures(leq);
    s.to_multiset_ensures();
    s.sort_by(leq).to_multiset_ensures();
}

/// The sorted values at the 10th and 90th percentile of a non-empty list of spreads.
pub open spec fn spread_range(m: Seq<Measurement>) -> (i64, i64) {
    let sorted = spreads_of(m).sort_by(|a: i64, b: i64| spread_le(a, b));
    (sorted[percentile_index(m.len() as int, 10)], sorted[percentile_index(m.len() as int, 90)])
}

/// The sorted values at the 10th and 90th percentile of a non-empty list of liquidities.
pub open spec fn liquidity_range(m: Seq<Measurement>) -> (u64, u64) {
    let sorted = liquidities_of(m).sort_by(|a: u64, b: u64| liquidity_le(a, b));
    (sorted[percentile_index(m.len() as int, 10)], sorted[percentile_index(m.len() as int, 90)])
}

pub struct OrderbookValidator {
    measurements: VecDeque<Measurement>,
    normal_spread_range: (i64, i64),
    normal_liquidity_range: (u64, u64),
    config: ValidationConfig,
}

impl OrderbookValidator {
    pub closed spec fn history(&self) -> Seq<Measurement> {
        self.measurements@
    }

    pub closed spec fn spread_range_value(&self) -> (i64, i64) {
        self.normal_spread_range
    }

    pub closed spec fn liquidity_range_value(&self) -> (u64, u64) {
        self.normal_liquidity_range
    }

    pub closed spec fn configuration(&self) -> ValidationConfig {
        self.config
    }

    /// The ring stays within its bound; once it holds a measurement the ranges are its
    /// percentiles.
    pub closed spec fn wf(&self) -> bool {
        &&& self.measurements@.len() <= MAX_MEASUREMENTS
        &&& self.measurements@.len() > 0 ==> self.normal_spread_range == spread_range(self.measurements@)
            && self.normal_liquidity_range == liquidity_range(self.measurements@)
    }

    pub fn new(config: ValidationConfig) -> (r: Self)
        ensures
            r.wf(),
            r.history() == Seq::<Measurement>::empty(),
            r.spread_range_value() == (0i64, SCALE),
            r.liquidity_range_value() == (0u64, 100u64),
            r.configuration() == config,
    {
        OrderbookValidator {
            measurements: VecDeque::new(),
            normal_spread_range: (0, SCALE),
            normal_liquidity_range: (0, 100),
            config,
        }
    }

    /// What `validate_at` reads of `book` at time `now`.
    pub open spec fn reading(&self, book: Orderbook, now: u64) -> Reading {
        Reading {
            bid: book.best_bid_value(),
            ask: book.best_ask_value(),
            bid_depth: book.bid_view().len() as int,
            ask_depth: book.ask_view().len() as int,
            latency_ms: latency_of(book.last_update(), now) as u64,
            spread: spread_of(book.best_bid_value(), book.best_ask_value()),
            liquidity: top_volume(book.bid_view(), LIQUIDITY_DEPTH as int) + top_volume(book.ask_view(), LIQUIDITY_DEPTH as int),
            calibrated: self.history().len() >= MIN_CALIBRATION,
            normal_max_spread: self.spread_range_value().1 as int,
            normal_min_liquidity: self.liquidity_range_value().0 as int,
        }
    }

    /// Records a measurement of a valid book and recomputes the ranges from the ring.
    fn update_normal_ranges(&mut self, spread_pct: i64, liquidity: u64, now: u64)
        requires
            old(self).wf(),
        ensures
            final(self).wf(),
            final(self).history() == keep_last_measurements(
                old(self).history().push(Measurement { timestamp_ms: now, spread_pct, liquidity }),
            ),
            final(self).configuration() == old(self).configuration(),
    {
        let m = Measurement { timestamp_ms: now, spread_pct, liquidity };
        let ghost pushed = self.measurements@.push(m);
        self.measurements.push_back(m);
        if self.measurements.len() > MAX_MEASUREMENTS {
            let _ = self.measurements.pop_front();
            assert(self.measurements@ =~= keep_last_measurements(pushed));
        } else {
            assert(self.measurements@ =~= keep_last_measurements(pushed));
        }
        let ghost h = self.measurements@;
        let n = self.measurements.len();
        let mut spreads: Vec<i64> = Vec::new();
        let mut liquidities: Vec<u64> = Vec::new();
        let mut i: usize = 0;
        while i < n
            invariant
                n == h.len(),
                h == self.measurements@,
                i <= n,
                spreads@ == spreads_of(h.subrange(0, i as int)),
                liquidities@ == liquidities_of(h.subrange(0, i as int)),
            decreases n - i,
        {
            let x = self.measurements[i];
            spreads.push(x.spread_pct);
            liquidities.push(x.liquidity);
            proof {
                assert(spreads@ =~= spreads_of(h.subrange(0, i as int + 1)));
                assert(liquidities@ =~= liquidities_of(h.subrange(0, i as int + 1)));
            }
            i = i + 1;
        }
        assert(h.subrange(0, n as int) =~= h);
        sort_spreads(&mut spreads);
        sort_liquidities(&mut liquidities);
        proof {
            lemma_sort_len(spreads_of(h), |a: i64, b: i64| spread_le(a, b));
            lemma_sort_len(liquidities_of(h), |a: u64, b: u64| liquidity_le(a, b));
        }
        let p10: usize = if n / 10 < n - 1 {
            n / 10
        } else {
            n - 1
        };
        let p90: usize = if n * 9 / 10 < n - 1 {
            n * 9 / 10
        } else {
            n - 1
        };
        assert(p10 as int == percentile_index(n as int, 10));
        assert(p90 as int == percentile_index(n as int, 90));
        self.normal_spread_range = (spreads[p10], spreads[p90]);
        self.normal_liquidity_range = (liquidities[p10], liquidities[p90]);
    }

    /// Classifies `book` at time `now` (see `classify`). A valid outcome also records the
    /// book's spread and liquidity in the baseline; a disabled validator passes every book
    /// and records nothing.
    pub fn validate_at(&mut self, book: &Orderbook, now: u64) -> (r: ValidationResult)
        requires
            old(self).wf(),
            book.wf(),
        ensures
            final(self).wf(),
            final(self).configuration() == old(self).configuration(),
            validation_step(*old(self), *final(self), *book, r, now),
    {
        if !self.config.enabled {
            return ValidationResult::Valid;
        }
        let (bid, ask) = book.best_bid_ask();
        if bid >= ask && bid != NO_BID && ask != NO_ASK {
            return ValidationResult::PriceAnomaly;
        }
        if bid == NO_BID || ask == 0 || ask == NO_ASK {
            return ValidationResult::InsufficientDepth;
        }
        let min_depth = self.config.min_depth_levels;
        let (bid_levels, ask_levels) = book.get_sorted_levels(min_depth);
        proof {
            assert(pairs(bid_levels@).len() == bid_levels@.len());
            assert(pairs(ask_levels@).len() == ask_levels@.len());
        }
        if bid_levels.len() < min_depth || ask_levels.len() < min_depth {
            return ValidationResult::InsufficientDepth;
        }
        let latency = book.latency_at(now);
        if latency > self.config.max_data_age_ms {
            return ValidationResult::StaleData;
        }
        let spread = book.spread_pct();
        let calibrated = self.measurements.len() >= MIN_CALIBRATION;
        let max_spread = self.normal_spread_range.1 as i128;
        let spread_mult = self.config.max_spread_multiplier as i128;
        assert(-0x8000_0000_0000_0000_0000_0000 <= max_spread * spread_mult <= 0x8000_0000_0000_0000_0000_0000) by (nonlinear_arith)
            requires
                -0x8000_0000_0000_0000 <= max_spread <= 0x8000_0000_0000_0000,
                0 <= spread_mult <= 0x1_0000_0000,
        ;
        if calibrated && (spread as i128) * 1_000_000 > max_spread * spread_mult {
            return ValidationResult::WideSpread;
        }
        let depth_liquidity = book.liquidity_depth(LIQUIDITY_DEPTH);
        proof {
            lemma_top_volume_bound(book.bid_view(), LIQUIDITY_DEPTH as int);
            lemma_top_volume_bound(book.ask_view(), LIQUIDITY_DEPTH as int);
        }
        let liquidity = depth_liquidity as u64;
        let min_liquidity = self.normal_liquidity_range.0 as u128;
        let liquidity_mult = self.config.min_liquidity_multiplier as u128;
        assert(min_liquidity * liquidity_mult <= 0x1_0000_0000_0000_0000 * 0x1_0000_0000) by (nonlinear_arith)
            requires
                min_liquidity <= 0x1_0000_0000_0000_0000,
                liquidity_mult <= 0x1_0000_0000,
        ;
        if calibrated && (liquidity as u128) * 1_000_000 < min_liquidity * liquidity_mult {
            return ValidationResult::LowLiquidity;
        }
        self.update_normal_ranges(spread, liquidity, now);
        ValidationResult::Valid
    }

    /// `validate_at` by the current time.
    pub fn validate(&mut self, book: &Orderbook) -> (r: ValidationResult)
        requires
            old(self).wf(),
            book.wf(),
        ensures
            final(self).wf(),
            final(self).configuration() == old(self).configuration(),
            exists|t: u64| #[trigger] validation_step(*old(self), *final(self), *book, r, t),
            !old(self).configuration().enabled ==> r == ValidationResult::Valid && *final(self) == *old(self),
            r != ValidationResult::Valid ==> *final(self) == *old(self),
            old(self).configuration().enabled && book.best_bid_value() >= book.best_ask_value()
                && book.best_bid_value() != NO_BID && book.best_ask_value() != NO_ASK ==> r
                == ValidationResult::PriceAnomaly,
            old(self).configuration().enabled && !(book.best_bid_value() >= book.best_ask_value()
                && book.best_bid_value() != NO_BID && book.best_ask_value() != NO_ASK) && (book.best_bid_value() == NO_BID
                || book.best_ask_value() == 0 || book.best_ask_value() == NO_ASK
                || book.bid_view().len() < old(self).configuration().min_depth_levels
                || book.ask_view().len() < old(self).configuration().min_depth_levels) ==> r
                == ValidationResult::InsufficientDepth,
    {
        let now = now_millis();
        let r = self.validate_at(book, now);
        assert(validation_step(*old(self), *final(self), *book, r, now));
        r
    }

    /// The normal spread range and the normal liquidity range (10th and 90th percentile).
    pub fn get_normal_ranges(&self) -> (r: ((i64, i64), (u64, u64)))
        ensures
            r == (self.spread_range_value(), self.liquidity_range_value()),
    {
        (self.normal_spread_range, self.normal_liquidity_range)
    }

    /// Enough measurements are recorded for spread and liquidity to be judged.
    pub fn is_calibrated(&self) -> (r: bool)
        ensures
            r == (self.history().len() >= MIN_CALIBRATION),
    {
        self.measurements.len() >= MIN_CALIBRATION
    }
}

/// One validation of `book` at time `t` by `before` returned `r` and left `after`. A
/// disabled validator passes the book and changes nothing. An enabled one classifies the
/// book's reading at `t`; only a valid outcome records the measurement and recomputes the
/// normal ranges from the ring, any other leaves the validator unchanged.
pub open spec fn validation_step(
    before: OrderbookValidator,
    after: OrderbookValidator,
    book: Orderbook,
    r: ValidationResult,
    t: u64,
) -> bool {
    &&& after.configuration() == before.configuration()
    &&& !before.configuration().enabled ==> r == ValidationResult::Valid && after == before
    &&& before.configuration().enabled ==> r == classify(before.reading(book, t), before.configuration())
    &&& r != ValidationResult::Valid ==> after == before
    &&& before.configuration().enabled && r == ValidationResult::Valid ==> {
        &&& after.history() == keep_last_measurements(
            before.history().push(
                Measurement {
                    timestamp_ms: t,
                    spread_pct: spread_of(book.best_bid_value(), book.best_ask_value()) as i64,
                    liquidity: before.reading(book, t).liquidity as u64,
                },
            ),
        )
        &&& after.spread_range_value() == spread_range(after.history())
        &&& after.liquidity_range_value() == liquidity_range(after.history())
    }
}

/// The most recent `MAX_MEASUREMENTS` measurements.
pub open spec fn keep_last_measurements(s: Seq<Measurement>) -> Seq<Measurement> {
    if s.len() > MAX_MEASUREMENTS {
        s.subrange(s.len() - MAX_MEASUREMENTS, s.len() as int)
    } else {
        s
    }
}

proof fn lemma_top_volume_bound(s: Seq<(u64, u32)>, depth: int)
    requires
        0 <= depth,
    ensures
        0 <= top_volume(s, depth) <= depth * 0xFFFF_FFFF,
{
    let t = if depth < s.len() { s.subrange(0, depth) } else { s };
    lemma_volume_bound(t);
}

proof fn lemma_volume_bound(s: Seq<(u64, u32)>)
    ensures
        0 <= crate::orderbook::manager::volume(s) <= s.len() * 0xFFFF_FFFF,
    decreases s.len(),
{
    if s.len() > 0 {
        lemma_volume_bound(s.drop_last());
    }
}

/// A crossed book, with both best prices published, is a price anomaly whatever else
/// holds of it: thin depth, stale data, spread or liquidity.
pub proof fn lemma_crossed_book_is_anomaly(x: Reading, config: ValidationConfig)
    requires
        x.bid >= x.ask,
        x.bid != NO_BID,
        x.ask != NO_ASK,
    ensures
        classify(x, config) == ValidationResult::PriceAnomaly,
{
}

/// A book that is not crossed, with fewer levels on a side than the configured minimum,
/// has insufficient depth whatever else holds of it.
pub proof fn lemma_thin_book_is_insufficient(x: Reading, config: ValidationConfig)
    requires
        !(x.bid >= x.ask && x.bid != NO_BID && x.ask != NO_ASK),
        x.bid_depth < config.min_depth_levels || x.ask_depth < config.min_depth_levels,
    ensures
        classify(x, config) == ValidationResult::InsufficientDepth,
{
}

} // verus!
