//! Microstructure metrics over successive reads of the book: volume rates, large orders,
//! multi-depth imbalance, price pressure and their scores.
use vstd::prelude::*;
use std::collections::VecDeque;
use crate::clock::now_millis;
use crate::fixed::{difference_ratio_ppm, floor_sqrt, isqrt, lemma_floor_sqrt_at_least, lemma_floor_sqrt_at_most, SCALE};
use crate::orderbook::manager::{imbalance_of, top_volume_of_pairs, volume};

verus! {

/// Volume snapshots kept: one minute at one snapshot per second.
pub const MAX_HISTORY_SIZE: usize = 60;

/// Large orders kept.
pub const MAX_LARGE_ORDERS: usize = 20;

/// Book volume at one instant, in lots.
#[derive(Debug, Clone, Copy, PartialEq, Eq)]
pub struct VolumeSnapshot {
    pub timestamp_ms: u64,
    pub bid_volume: u64,
    pub ask_volume: u64,
    pub total_volume: u128,
}

#[derive(Debug, Clone, Copy, PartialEq, Eq)]
pub enum OrderSide {
    Bid,
    Ask,
}

/// A level much larger than the average order; `size_multiplier` is its size over the
/// average, in millionths.
#[derive(Debug, Clone, Copy, PartialEq, Eq)]
pub struct LargeOrder {
    pub price: u64,
    pub size: u32,
    pub side: OrderSide,
    pub timestamp_ms: u64,
    pub size_multiplier: u64,
}

/// `a / b` truncated toward zero (`b > 0`).
pub open spec fn div_trunc(a: int, b: int) -> int {
    if a >= 0 {
        a / b
    } else {
        -((-a) / b)
    }
}

/// A change over `elapsed_ms` milliseconds as a rate per second, in millionths;
/// 0 when no time has passed.
pub open spec fn rate_per_second(change: int, elapsed_ms: int) -> int {
    if elapsed_ms <= 0 {
        0
    } else {
        div_trunc(change * 1000 * (SCALE as int), elapsed_ms)
    }
}

/// Index of the first snapshot at or after `cutoff`, searching from `i`; 0 (the oldest)
/// when none is.
pub open spec fn window_start_from(h: Seq<VolumeSnapshot>, cutoff: u64, i: int) -> int
    decreases h.len() - i,
{
    if i < 0 || i >= h.len() {
        0
    } else if h[i].timestamp_ms >= cutoff {
        i
    } else {
        window_start_from(h, cutoff, i + 1)
    }
}

/// Start of a trailing window of `window_ms` ending at `now`; 0 if it reaches before 0.
pub open spec fn cutoff_of(now: u64, window_ms: u64) -> u64 {
    if now >= window_ms {
        (now - window_ms) as u64
    } else {
        0
    }
}

/// Rate per second, in millionths, of the total volume over the trailing window of
/// `window_ms` ending at `now`: from the first snapshot inside the window (the oldest if
/// none is) to the newest; 0 with fewer than two snapshots or when no time has passed.
pub open spec fn total_rate(h: Seq<VolumeSnapshot>, window_ms: u64, now: u64) -> int {
    let first = h[window_start_from(h, cutoff_of(now, window_ms), 0)];
    if h.len() < 2 || h.last().timestamp_ms <= first.timestamp_ms {
        0
    } else {
        rate_per_second(h.last().total_volume - first.total_volume, h.last().timestamp_ms - first.timestamp_ms)
    }
}

/// The same rates as `total_rate`, for bid and ask volume separately.
pub open spec fn side_rates(h: Seq<VolumeSnapshot>, window_ms: u64, now: u64) -> (int, int) {
    let first = h[window_start_from(h, cutoff_of(now, window_ms), 0)];
    if h.len() < 2 || h.last().timestamp_ms <= first.timestamp_ms {
        (0, 0)
    } else {
        (
            rate_per_second(h.last().bid_volume - first.bid_volume, h.last().timestamp_ms - first.timestamp_ms),
            rate_per_second(h.last().ask_volume - first.ask_volume, h.last().timestamp_ms - first.timestamp_ms),
        )
    }
}

/// `r` pairs each window, in order, with its total-volume rate at `now`.
pub open spec fn volume_deltas_at(h: Seq<VolumeSnapshot>, windows: Seq<u64>, r: Seq<(u64, i128)>, now: u64) -> bool {
    &&& r.len() == windows.len()
    &&& forall|i: int| 0 <= i < r.len() ==> (#[trigger] r[i]).0 == windows[i] && r[i].1 == total_rate(h, windows[i], now)
}

/// The last `n` elements of `s` (all of them if fewer).
pub open spec fn keep_last<T>(s: Seq<T>, n: int) -> Seq<T> {
    if s.len() > n {
        s.subrange(s.len() - n, s.len() as int)
    } else {
        s
    }
}

/// A level is a whale when its quantity exceeds the average order size
/// (`total / count`) times `multiplier` (in millionths).
pub open spec fn is_whale(quantity: u32, total: int, count: int, multiplier: u32) -> bool {
    quantity * count * (SCALE as int) > total * multiplier
}

/// Size of a level over the average order size, in millionths, saturating at `u64::MAX`.
pub open spec fn multiplier_of(quantity: u32, total: int, count: int) -> u64 {
    let m = quantity * count * (SCALE as int) / total;
    if m > u64::MAX {
        u64::MAX
    } else {
        m as u64
    }
}

/// The whales among `levels`, in order, recorded on `side` at `now`.
pub open spec fn whales_among(
    levels: Seq<(u64, u32)>,
    side: OrderSide,
    total: int,
    count: int,
    multiplier: u32,
    now: u64,
) -> Seq<LargeOrder>
    decreases levels.len(),
{
    if levels.len() == 0 {
        Seq::empty()
    } else {
        let w = whales_among(levels.drop_last(), side, total, count, multiplier, now);
        let e = levels.last();
        if is_whale(e.1, total, count, multiplier) {
            w.push(
                LargeOrder {
                    price: e.0,
                    size: e.1,
                    side,
                    timestamp_ms: now,
                    size_multiplier: multiplier_of(e.1, total, count),
                },
            )
        } else {
            w
        }
    }
}

proof fn lemma_keep_last_push<T>(s: Seq<T>, x: T, n: int)
    requires
        n >= 1,
    ensures
        keep_last(keep_last(s, n).push(x), n) == keep_last(s.push(x), n),
{
    if s.len() > n {
        assert(keep_last(keep_last(s, n).push(x), n) =~= keep_last(s.push(x), n));
    }
}

proof fn lemma_keep_last_append<T>(s: Seq<T>, t: Seq<T>, n: int)
    requires
        n >= 1,
    ensures
        keep_last(keep_last(s, n) + t, n) == keep_last(s + t, n),
{
    if s.len() > n {
        assert(keep_last(keep_last(s, n) + t, n) =~= keep_last(s + t, n));
    }
}

/// Every recorded whale passes the threshold and carries its size multiplier.
proof fn lemma_whales_are_whales(
    levels: Seq<(u64, u32)>,
    side: OrderSide,
    total: int,
    count: int,
    multiplier: u32,
    now: u64,
)
    ensures
        forall|i: int| 0 <= i < whales_among(levels, side, total, count, multiplier, now).len() ==> {
            let w = #[trigger] whales_among(levels, side, total, count, multiplier, now)[i];
            &&& is_whale(w.size, total, count, multiplier)
            &&& w.size_multiplier == multiplier_of(w.size, total, count)
        },
    decreases levels.len(),
{
    if levels.len() > 0 {
        lemma_whales_are_whales(levels.drop_last(), side, total, count, multiplier, now);
    }
}

/// A price-change rate is at most 2^94 in size, so that differences and scores fit.
pub open spec fn rate_bounded(r: i128) -> bool {
    -0x4000_0000_0000_0000_0000_0000 <= r <= 0x4000_0000_0000_0000_0000_0000
}

/// Age weight of a large order seen at `ts`, in millionths: 1 for one seen now, falling
/// linearly to 0 at `max_age` milliseconds.
pub open spec fn age_factor(ts: u64, now: u64, max_age: u64) -> int {
    let age: int = if now >= ts { now - ts } else { 0 };
    (max_age - age) * (SCALE as int) / (max_age as int)
}

/// Contribution of one large order to the whale score, in millionths of a point: ten
/// points per unit of size multiplier above 3, weighted by age; 0 outside the window.
pub open spec fn whale_term(w: LargeOrder, now: u64, max_age: u64) -> int {
    if w.timestamp_ms >= cutoff_of(now, max_age) {
        let excess: int = if w.size_multiplier > 3 * SCALE { w.size_multiplier - 3 * SCALE } else { 0 };
        age_factor(w.timestamp_ms, now, max_age) * excess * 10 / (SCALE as int)
    } else {
        0
    }
}

pub open spec fn whale_sum(s: Seq<LargeOrder>, now: u64, max_age: u64) -> int
    decreases s.len(),
{
    if s.len() == 0 {
        0
    } else {
        whale_sum(s.drop_last(), now, max_age) + whale_term(s.last(), now, max_age)
    }
}

/// Sum of the recorded imbalances.
pub open spec fn imbalance_sum(s: Seq<(usize, i64)>) -> int
    decreases s.len(),
{
    if s.len() == 0 {
        0
    } else {
        imbalance_sum(s.drop_last()) + s.last().1
    }
}

/// Sum of the squared deviations of the recorded imbalances from `mean`.
pub open spec fn squared_deviation_sum(s: Seq<(usize, i64)>, mean: int) -> int
    decreases s.len(),
{
    if s.len() == 0 {
        0
    } else {
        squared_deviation_sum(s.drop_last(), mean) + (s.last().1 - mean) * (s.last().1 - mean)
    }
}

/// Mean of the recorded imbalances, truncated toward zero.
pub open spec fn imbalance_mean(s: Seq<(usize, i64)>) -> int {
    div_trunc(imbalance_sum(s), s.len() as int)
}

/// Standard deviation of the recorded imbalances, in millionths, rounded down.
pub open spec fn dispersion(s: Seq<(usize, i64)>) -> int {
    floor_sqrt(squared_deviation_sum(s, imbalance_mean(s)) / (s.len() as int))
}

/// Consistency score for a dispersion `sd`, in millionths: `exp(-2 sd)` taken as the
/// reciprocal of the Taylor polynomial of `exp(2 sd)` up to the fourth power, which lies
/// in (0, 1] and falls as `sd` grows.
pub open spec fn consistency_of(sd: int) -> int {
    let s = SCALE as int;
    let x = 2 * sd;
    24 * s * s * s * s * s / (24 * s * s * s * s + 24 * s * s * s * x + 12 * s * s * x * x + 4 * s * x * x * x
        + x * x * x * x)
}

/// A whale detection at time `t` on `before` returned `r` and left `after`: with no
/// average order size nothing is found and nothing changes; otherwise `r` lists the whales
/// among the bids then among the asks, and they are appended to the ring of large orders.
pub open spec fn whales_detected(
    before: OrderbookMetrics,
    after: OrderbookMetrics,
    bid_levels: Seq<(u64, u32)>,
    ask_levels: Seq<(u64, u32)>,
    multiplier: u32,
    r: Seq<LargeOrder>,
    t: u64,
) -> bool {
    &&& before.average_total() <= 0 ==> r.len() == 0 && after == before
    &&& before.average_total() > 0 ==> {
        &&& r == whales_among(bid_levels, OrderSide::Bid, before.average_total(), before.average_count(), multiplier, t)
            + whales_among(ask_levels, OrderSide::Ask, before.average_total(), before.average_count(), multiplier, t)
        &&& after.recent_whales() == keep_last(before.recent_whales() + r, MAX_LARGE_ORDERS as int)
    }
}

/// The whale score at `now`: the sum of the terms of the large orders, capped at 100
/// points; 0 for an empty window.
pub open spec fn whale_score_of(s: Seq<LargeOrder>, max_age: u64, now: u64) -> int {
    if max_age == 0 {
        0
    } else if whale_sum(s, now, max_age) > 100 * SCALE {
        100 * SCALE as int
    } else {
        whale_sum(s, now, max_age)
    }
}

/// One pressure reading at time `t` on `before` returned `r` and left `after`. The first
/// reading only records the prices and returns (0, 0); a later one after the previous
/// time sets the velocities of both best prices; one not after it changes nothing and
/// returns the last velocities. Nothing else changes.
pub open spec fn pressure_step(
    before: OrderbookMetrics,
    after: OrderbookMetrics,
    best_bid: u64,
    best_ask: u64,
    r: (i128, i128),
    t: u64,
) -> bool {
    &&& before.previous().2 == 0 ==> {
        &&& r == (0i128, 0i128)
        &&& after.previous() == (best_bid, best_ask, t)
        &&& after.pressures() == before.pressures()
    }
    &&& before.previous().2 != 0 && t > before.previous().2 ==> {
        &&& after.pressures().0 == rate_per_second(best_bid - before.previous().0, t - before.previous().2)
        &&& after.pressures().1 == rate_per_second(best_ask - before.previous().1, t - before.previous().2)
        &&& after.previous() == (best_bid, best_ask, t)
        &&& r == after.pressures()
    }
    &&& before.previous().2 != 0 && t <= before.previous().2 ==> {
        &&& r == before.pressures()
        &&& after.previous() == before.previous()
        &&& after.pressures() == before.pressures()
    }
    &&& after.history() == before.history()
    &&& after.recent_whales() == before.recent_whales()
    &&& after.depth_imbalances() == before.depth_imbalances()
    &&& after.average_total() == before.average_total()
    &&& after.average_count() == before.average_count()
}

/// Computes a rate per second in millionths from a signed change and an elapsed time.
fn rate_of(increase: u128, decrease: u128, elapsed_ms: u64) -> (r: i128)
    requires
        increase < 0x1_0000_0000_0000_0000_0000,
        decrease < 0x1_0000_0000_0000_0000_0000,
    ensures
        r == rate_per_second(increase - decrease, elapsed_ms as int),
        increase <= 0xFFFF_FFFF_FFFF_FFFF && decrease <= 0xFFFF_FFFF_FFFF_FFFF ==> rate_bounded(r),
{
    if elapsed_ms == 0 {
        return 0;
    }
    if increase >= decrease {
        let n: u128 = increase - decrease;
        let q: u128 = n * 1000 * 1_000_000 / (elapsed_ms as u128);
        assert(q <= n * 1000 * 1_000_000) by {
            vstd::arithmetic::div_mod::lemma_div_is_ordered_by_denominator(n * 1000 * 1_000_000, 1, elapsed_ms as int);
        }
        q as i128
    } else {
        let n: u128 = decrease - increase;
        let q: u128 = n * 1000 * 1_000_000 / (elapsed_ms as u128);
        assert(q <= n * 1000 * 1_000_000) by {
            vstd::arithmetic::div_mod::lemma_div_is_ordered_by_denominator(n * 1000 * 1_000_000, 1, elapsed_ms as int);
        }
        -(q as i128)
    }
}

fn copy_depth_imbalances(v: &Vec<(usize, i64)>) -> (r: Vec<(usize, i64)>)
    ensures
        r@ == v@,
{
    let mut r: Vec<(usize, i64)> = Vec::new();
    let mut i: usize = 0;
    while i < v.len()
        invariant
            i <= v@.len(),
            r@ == v@.subrange(0, i as int),
        decreases v@.len() - i,
    {
        r.push(v[i]);
        i = i + 1;
    }
    assert(r@ =~= v@);
    r
}

pub struct OrderbookMetrics {
    volume_history: VecDeque<VolumeSnapshot>,
    imbalance_by_depth: Vec<(usize, i64)>,
    avg_total: u128,
    avg_count: u64,
    large_orders: VecDeque<LargeOrder>,
    bid_pressure: i128,
    ask_pressure: i128,
    prev_best_bid: u64,
    prev_best_ask: u64,
    prev_timestamp_ms: u64,
}

impl OrderbookMetrics {
    pub closed spec fn history(&self) -> Seq<VolumeSnapshot> {
        self.volume_history@
    }

    pub closed spec fn depth_imbalances(&self) -> Seq<(usize, i64)> {
        self.imbalance_by_depth@
    }

    /// Sum of the quantities that the average order size was last computed from.
    pub closed spec fn average_total(&self) -> int {
        self.avg_total as int
    }

    /// Number of levels that the average order size was last computed from.
    pub closed spec fn average_count(&self) -> int {
        self.avg_count as int
    }

    pub closed spec fn recent_whales(&self) -> Seq<LargeOrder> {
        self.large_orders@
    }

    pub closed spec fn pressures(&self) -> (i128, i128) {
        (self.bid_pressure, self.ask_pressure)
    }

    pub closed spec fn previous(&self) -> (u64, u64, u64) {
        (self.prev_best_bid, self.prev_best_ask, self.prev_timestamp_ms)
    }

    /// The rings stay within their bounds; the average is over at least one level unless
    /// it is zero, and its total fits the levels counted; depths are recorded once each.
    pub closed spec fn wf(&self) -> bool {
        &&& self.volume_history@.len() <= MAX_HISTORY_SIZE
        &&& self.large_orders@.len() <= MAX_LARGE_ORDERS
        &&& forall|i: int|
            0 <= i < self.volume_history@.len() ==> (#[trigger] self.volume_history@[i]).total_volume
                == self.volume_history@[i].bid_volume + self.volume_history@[i].ask_volume
        &&& self.avg_total <= self.avg_count as int * 0xFFFF_FFFF
        &&& forall|i: int, j: int|
            0 <= i < j < self.imbalance_by_depth@.len() ==> #[trigger] self.imbalance_by_depth@[i].0
                != #[trigger] self.imbalance_by_depth@[j].0
        &&& forall|i: int|
            0 <= i < self.imbalance_by_depth@.len() ==> -SCALE <= #[trigger] self.imbalance_by_depth@[i].1 <= SCALE
        &&& rate_bounded(self.bid_pressure)
        &&& rate_bounded(self.ask_pressure)
    }

    pub fn new() -> (r: Self)
        ensures
            r.wf(),
            r.history() == Seq::<VolumeSnapshot>::empty(),
            r.depth_imbalances() == Seq::<(usize, i64)>::empty(),
            r.average_total() == 0,
            r.average_count() == 0,
            r.recent_whales() == Seq::<LargeOrder>::empty(),
            r.pressures() == (0i128, 0i128),
            r.previous() == (0u64, 0u64, 0u64),
    {
        OrderbookMetrics {
            volume_history: VecDeque::new(),
            imbalance_by_depth: Vec::new(),
            avg_total: 0,
            avg_count: 0,
            large_orders: VecDeque::new(),
            bid_pressure: 0,
            ask_pressure: 0,
            prev_best_bid: 0,
            prev_best_ask: 0,
            prev_timestamp_ms: 0,
        }
    }

    /// Number of volume snapshots held.
    pub fn volume_history_len(&self) -> (r: usize)
        ensures
            r == self.history().len(),
    {
        self.volume_history.len()
    }

    /// Appends a volume snapshot taken at `now`, dropping the oldest beyond the ring's size.
    pub fn add_snapshot_at(&mut self, bid_volume: u64, ask_volume: u64, now: u64)
        requires
            old(self).wf(),
        ensures
            final(self).wf(),
            final(self).history() == keep_last(
                old(self).history().push(
                    VolumeSnapshot {
                        timestamp_ms: now,
                        bid_volume,
                        ask_volume,
                        total_volume: (bid_volume + ask_volume) as u128,
                    },
                ),
                MAX_HISTORY_SIZE as int,
            ),
            final(self).depth_imbalances() == old(self).depth_imbalances(),
            final(self).recent_whales() == old(self).recent_whales(),
            final(self).average_total() == old(self).average_total(),
            final(self).average_count() == old(self).average_count(),
            final(self).pressures() == old(self).pressures(),
            final(self).previous() == old(self).previous(),
    {
        let snapshot = VolumeSnapshot {
            timestamp_ms: now,
            bid_volume,
            ask_volume,
            total_volume: bid_volume as u128 + ask_volume as u128,
        };
        let ghost pushed = self.volume_history@.push(snapshot);
        self.volume_history.push_back(snapshot);
        if self.volume_history.len() > MAX_HISTORY_SIZE {
            let _ = self.volume_history.pop_front();
            assert(self.volume_history@ =~= keep_last(pushed, MAX_HISTORY_SIZE as int));
        }
    }

    /// Appends a volume snapshot stamped with the current time.
    pub fn add_snapshot(&mut self, bid_volume: u64, ask_volume: u64)
        requires
            old(self).wf(),
        ensures
            final(self).wf(),
            final(self).history().len() == if old(self).history().len() == MAX_HISTORY_SIZE {
                MAX_HISTORY_SIZE as int
            } else {
                old(self).history().len() + 1int
            },
            final(self).history().last().bid_volume == bid_volume,
            final(self).history().last().ask_volume == ask_volume,
            final(self).history().last().total_volume == bid_volume + ask_volume,
    {
        let now = now_millis();
        self.add_snapshot_at(bid_volume, ask_volume, now);
    }

    /// Index of the snapshot that opens the trailing window ending at `now`.
    fn window_start(&self, window_ms: u64, now: u64) -> (r: usize)
        ensures
            r == window_start_from(self.history(), cutoff_of(now, window_ms), 0),
            self.history().len() > 0 ==> r < self.history().len(),
    {
        let cutoff = if now >= window_ms {
            now - window_ms
        } else {
            0
        };
        let ghost h = self.volume_history@;
        let n = self.volume_history.len();
        let mut i: usize = 0;
        while i < n
            invariant
                n == h.len(),
                h == self.volume_history@,
                cutoff == cutoff_of(now, window_ms),
                i <= n,
                window_start_from(h, cutoff, 0) == window_start_from(h, cutoff, i as int),
            decreases n - i,
        {
            if self.volume_history[i].timestamp_ms >= cutoff {
                assert(window_start_from(h, cutoff, i as int) == i as int);
                return i;
            }
            i = i + 1;
        }
        0
    }

    /// Rate of change per second, in millionths, of the total volume over the trailing
    /// window ending at `now`: from the first snapshot inside the window (the oldest if none
    /// is) to the newest. 0 with fewer than two snapshots or when no time has passed.
    pub fn calculate_volume_delta_at(&self, window_ms: u64, now: u64) -> (r: i128)
        requires
            self.wf(),
        ensures
            r == total_rate(self.history(), window_ms, now),
    {
        let n = self.volume_history.len();
        if n < 2 {
            return 0;
        }
        let current = self.volume_history[n - 1];
        let first = self.volume_history[self.window_start(window_ms, now)];
        if current.timestamp_ms <= first.timestamp_ms {
            return 0;
        }
        rate_of(current.total_volume, first.total_volume, current.timestamp_ms - first.timestamp_ms)
    }

    /// `calculate_volume_delta_at` by the current time.
    pub fn calculate_volume_delta(&self, window_ms: u64) -> (r: i128)
        requires
            self.wf(),
        ensures
            self.history().len() < 2 ==> r == 0,
            exists|t: u64| r == #[trigger] total_rate(self.history(), window_ms, t),
    {
        let now = now_millis();
        self.calculate_volume_delta_at(window_ms, now)
    }

    /// The same rates as `calculate_volume_delta_at`, for bid and ask volume separately.
    pub fn calculate_side_volume_deltas_at(&self, window_ms: u64, now: u64) -> (r: (i128, i128))
        ensures
            (r.0 as int, r.1 as int) == side_rates(self.history(), window_ms, now),
    {
        let n = self.volume_history.len();
        if n < 2 {
            return (0, 0);
        }
        let current = self.volume_history[n - 1];
        let first = self.volume_history[self.window_start(window_ms, now)];
        if current.timestamp_ms <= first.timestamp_ms {
            return (0, 0);
        }
        let elapsed = current.timestamp_ms - first.timestamp_ms;
        (
            rate_of(current.bid_volume as u128, first.bid_volume as u128, elapsed),
            rate_of(current.ask_volume as u128, first.ask_volume as u128, elapsed),
        )
    }

    /// `calculate_side_volume_deltas_at` by the current time.
    pub fn calculate_side_volume_deltas(&self, window_ms: u64) -> (r: (i128, i128))
        ensures
            self.history().len() < 2 ==> r == (0i128, 0i128),
            exists|t: u64| (r.0 as int, r.1 as int) == #[trigger] side_rates(self.history(), window_ms, t),
    {
        let now = now_millis();
        self.calculate_side_volume_deltas_at(window_ms, now)
    }

    /// The volume rate of each window, in the order given, at time `now`.
    pub fn get_volume_deltas_at(&self, windows: &Vec<u64>, now: u64) -> (r: Vec<(u64, i128)>)
        requires
            self.wf(),
        ensures
            volume_deltas_at(self.history(), windows@, r@, now),
    {
        let mut r: Vec<(u64, i128)> = Vec::new();
        let mut i: usize = 0;
        while i < windows.len()
            invariant
                self.wf(),
                i <= windows@.len(),
                r@.len() == i,
                forall|k: int|
                    0 <= k < i ==> (#[trigger] r@[k]).0 == windows@[k] && r@[k].1 == total_rate(self.history(), windows@[k], now),
        decreases windows@.len() - i,
        {
            let w = windows[i];
            let d = self.calculate_volume_delta_at(w, now);
            r.push((w, d));
            i = i + 1;
        }
        r
    }

    /// `get_volume_deltas_at` by the current time.
    pub fn get_volume_deltas(&self, windows: &Vec<u64>) -> (r: Vec<(u64, i128)>)
        requires
            self.wf(),
        ensures
            exists|t: u64| #[trigger] volume_deltas_at(self.history(), windows@, r@, t),
    {
        let now = now_millis();
        self.get_volume_deltas_at(windows, now)
    }

    /// Sets the average order size to the mean quantity of `levels`; an empty list leaves
    /// it as it was. The average is replaced, not merged with an earlier one.
    pub fn update_avg_order_size(&mut self, levels: &Vec<(u64, u32)>)
        requires
            old(self).wf(),
        ensures
            final(self).wf(),
            levels@.len() == 0 ==> *final(self) == *old(self),
            levels@.len() > 0 ==> final(self).average_total() == volume(levels@)
                && final(self).average_count() == levels@.len(),
            final(self).history() == old(self).history(),
            final(self).recent_whales() == old(self).recent_whales(),
            final(self).depth_imbalances() == old(self).depth_imbalances(),
            final(self).pressures() == old(self).pressures(),
            final(self).previous() == old(self).previous(),
    {
        if levels.len() == 0 {
            return;
        }
        let total = top_volume_of_pairs(levels, levels.len());
        self.avg_total = total;
        self.avg_count = levels.len() as u64;
    }

    /// Appends whales found on one side to `found`, each also kept in the ring.
    fn collect_whales(
        &mut self,
        levels: &Vec<(u64, u32)>,
        side: OrderSide,
        threshold_multiplier: u32,
        now: u64,
        found: &mut Vec<LargeOrder>,
    )
        requires
            old(self).wf(),
            old(self).avg_total > 0,
        ensures
            final(self).wf(),
            final(found)@ == old(found)@ + whales_among(
                levels@,
                side,
                old(self).avg_total as int,
                old(self).avg_count as int,
                threshold_multiplier,
                now,
            ),
            final(self).large_orders@ == keep_last(
                old(self).large_orders@ + whales_among(
                    levels@,
                    side,
                    old(self).avg_total as int,
                    old(self).avg_count as int,
                    threshold_multiplier,
                    now,
                ),
                MAX_LARGE_ORDERS as int,
            ),
            final(self).volume_history == old(self).volume_history,
            final(self).imbalance_by_depth == old(self).imbalance_by_depth,
            final(self).avg_total == old(self).avg_total,
            final(self).avg_count == old(self).avg_count,
            final(self).bid_pressure == old(self).bid_pressure,
            final(self).ask_pressure == old(self).ask_pressure,
            final(self).prev_best_bid == old(self).prev_best_bid,
            final(self).prev_best_ask == old(self).prev_best_ask,
            final(self).prev_timestamp_ms == old(self).prev_timestamp_ms,
    {
        let total = self.avg_total;
        let count = self.avg_count;
        let ghost ring0 = self.large_orders@;
        let ghost found0 = found@;
        let mut i: usize = 0;
        while i < levels.len()
            invariant
                self.wf(),
                total == self.avg_total,
                count == self.avg_count,
                total > 0,
                i <= levels@.len(),
                found@ == found0 + whales_among(levels@.subrange(0, i as int), side, total as int, count as int, threshold_multiplier, now),
                self.large_orders@ == keep_last(
                    ring0 + whales_among(levels@.subrange(0, i as int), side, total as int, count as int, threshold_multiplier, now),
                    MAX_LARGE_ORDERS as int,
                ),
                self.volume_history == old(self).volume_history,
                self.imbalance_by_depth == old(self).imbalance_by_depth,
                self.avg_total == old(self).avg_total,
                self.avg_count == old(self).avg_count,
                self.bid_pressure == old(self).bid_pressure,
                self.ask_pressure == old(self).ask_pressure,
                self.prev_best_bid == old(self).prev_best_bid,
                self.prev_best_ask == old(self).prev_best_ask,
                self.prev_timestamp_ms == old(self).prev_timestamp_ms,
            decreases levels@.len() - i,
        {
            let ghost w0 = whales_among(levels@.subrange(0, i as int), side, total as int, count as int, threshold_multiplier, now);
            assert(levels@.subrange(0, i as int + 1).drop_last() =~= levels@.subrange(0, i as int));
            let (price, qty) = levels[i];
            assert(total <= count as int * 0xFFFF_FFFF);
            assert(qty as int * count as int * 1_000_000 <= 0xFFFF_FFFF * 0xFFFF_FFFF_FFFF_FFFF * 1_000_000) by (nonlinear_arith)
                requires
                    qty <= 0xFFFF_FFFF,
                    count <= 0xFFFF_FFFF_FFFF_FFFF,
            ;
            assert(total as int * threshold_multiplier as int <= 0xFFFF_FFFF_FFFF_FFFF * 0xFFFF_FFFF * 0xFFFF_FFFF) by (nonlinear_arith)
                requires
                    total <= count as int * 0xFFFF_FFFF,
                    count <= 0xFFFF_FFFF_FFFF_FFFF,
                    threshold_multiplier <= 0xFFFF_FFFF,
            ;
            let scaled: u128 = qty as u128 * count as u128 * 1_000_000;
            if scaled > total * threshold_multiplier as u128 {
                let m: u128 = scaled / total;
                let size_multiplier: u64 = if m > 0xFFFF_FFFF_FFFF_FFFFu128 {
                    0xFFFF_FFFF_FFFF_FFFFu64
                } else {
                    m as u64
                };
                let whale = LargeOrder { price, size: qty, side, timestamp_ms: now, size_multiplier };
                found.push(whale);
                proof {
                    lemma_keep_last_push(ring0 + w0, whale, MAX_LARGE_ORDERS as int);
                    assert((ring0 + w0).push(whale) =~= ring0 + w0.push(whale));
                    assert(found0 + w0.push(whale) =~= (found0 + w0).push(whale));
                }
                self.large_orders.push_back(whale);
                if self.large_orders.len() > MAX_LARGE_ORDERS {
                    let _ = self.large_orders.pop_front();
                }
                proof {
                    assert(self.large_orders@ =~= keep_last(ring0 + w0.push(whale), MAX_LARGE_ORDERS as int));
                }
            }
            i = i + 1;
        }
        assert(levels@.subrange(0, levels@.len() as int) =~= levels@);
    }

    /// Flags every level, bids first, whose quantity exceeds the average order size times
    /// `threshold_multiplier` (in millionths), records each at `now` in the ring of recent
    /// large orders and returns them. With a zero average nothing is flagged.
    pub fn detect_whales_at(
        &mut self,
        bid_levels: &Vec<(u64, u32)>,
        ask_levels: &Vec<(u64, u32)>,
        threshold_multiplier: u32,
        now: u64,
    ) -> (r: Vec<LargeOrder>)
        requires
            old(self).wf(),
        ensures
            final(self).wf(),
            whales_detected(*old(self), *final(self), bid_levels@, ask_levels@, threshold_multiplier, r@, now),
            final(self).history() == old(self).history(),
            final(self).depth_imbalances() == old(self).depth_imbalances(),
            final(self).average_total() == old(self).average_total(),
            final(self).average_count() == old(self).average_count(),
            final(self).pressures() == old(self).pressures(),
            final(self).previous() == old(self).previous(),
    {
        let mut whales: Vec<LargeOrder> = Vec::new();
        if self.avg_total == 0 {
            return whales;
        }
        let ghost ring0 = self.large_orders@;
        self.collect_whales(bid_levels, OrderSide::Bid, threshold_multiplier, now, &mut whales);
        let ghost w1 = whales@;
        self.collect_whales(ask_levels, OrderSide::Ask, threshold_multiplier, now, &mut whales);
        proof {
            let w2 = whales@.subrange(w1.len() as int, whales@.len() as int);
            assert(whales@ =~= w1 + w2);
            lemma_keep_last_append(ring0 + w1, w2, MAX_LARGE_ORDERS as int);
            assert(ring0 + w1 + w2 =~= ring0 + whales@);
            assert(self.large_orders@ == keep_last(ring0 + whales@, MAX_LARGE_ORDERS as int));
            assert(self.recent_whales() == keep_last(old(self).recent_whales() + whales@, MAX_LARGE_ORDERS as int));
        }
        whales
    }

    /// `detect_whales_at` stamped with the current time.
    pub fn detect_whales(
        &mut self,
        bid_levels: &Vec<(u64, u32)>,
        ask_levels: &Vec<(u64, u32)>,
        threshold_multiplier: u32,
    ) -> (r: Vec<LargeOrder>)
        requires
            old(self).wf(),
        ensures
            final(self).wf(),
            exists|t: u64| #[trigger] whales_detected(*old(self), *final(self), bid_levels@, ask_levels@, threshold_multiplier, r@, t),
            old(self).average_total() <= 0 ==> r@.len() == 0 && *final(self) == *old(self),
            old(self).average_total() > 0 ==> final(self).recent_whales() == keep_last(
                old(self).recent_whales() + r@,
                MAX_LARGE_ORDERS as int,
            ),
            forall|i: int| 0 <= i < r@.len() ==> {
                &&& is_whale((#[trigger] r@[i]).size, old(self).average_total(), old(self).average_count(), threshold_multiplier)
                &&& r@[i].size_multiplier == multiplier_of(r@[i].size, old(self).average_total(), old(self).average_count())
            },
    {
        let now = now_millis();
        let r = self.detect_whales_at(bid_levels, ask_levels, threshold_multiplier, now);
        proof {
            assert(whales_detected(*old(self), *final(self), bid_levels@, ask_levels@, threshold_multiplier, r@, now));
            if old(self).average_total() > 0 {
                lemma_whales_are_whales(bid_levels@, OrderSide::Bid, old(self).average_total(), old(self).average_count(), threshold_multiplier, now);
                lemma_whales_are_whales(ask_levels@, OrderSide::Ask, old(self).average_total(), old(self).average_count(), threshold_multiplier, now);
                let wb = whales_among(bid_levels@, OrderSide::Bid, old(self).average_total(), old(self).average_count(), threshold_multiplier, now);
                assert forall|i: int| 0 <= i < r@.len() implies {
                    &&& is_whale((#[trigger] r@[i]).size, old(self).average_total(), old(self).average_count(), threshold_multiplier)
                    &&& r@[i].size_multiplier == multiplier_of(r@[i].size, old(self).average_total(), old(self).average_count())
                } by {
                    if i >= wb.len() {
                        let wa = whales_among(ask_levels@, OrderSide::Ask, old(self).average_total(), old(self).average_count(), threshold_multiplier, now);
                        assert(r@[i] == wa[i - wb.len()]);
                    }
                }
            }
        }
        r
    }

    /// Imbalance of the top levels of two already sorted sides at each requested depth, in
    /// millionths; a depth asked for twice is recorded once. The result replaces the
    /// recorded per-depth imbalances.
    pub fn calculate_multi_level_imbalance(
        &mut self,
        bid_levels: &Vec<(u64, u32)>,
        ask_levels: &Vec<(u64, u32)>,
        depths: &Vec<usize>,
    ) -> (r: Vec<(usize, i64)>)
        requires
            old(self).wf(),
        ensures
            final(self).wf(),
            final(self).depth_imbalances() == r@,
            forall|i: int| 0 <= i < r@.len() ==> #[trigger] r@[i].1 == imbalance_of(bid_levels@, ask_levels@, r@[i].0 as int),
            forall|i: int, j: int| 0 <= i < j < r@.len() ==> #[trigger] r@[i].0 != #[trigger] r@[j].0,
            forall|i: int| 0 <= i < r@.len() ==> depths@.contains(#[trigger] r@[i].0),
            forall|d: usize| depths@.contains(d) ==> exists|i: int| 0 <= i < r@.len() && #[trigger] r@[i].0 == d,
            final(self).history() == old(self).history(),
            final(self).recent_whales() == old(self).recent_whales(),
            final(self).average_total() == old(self).average_total(),
            final(self).average_count() == old(self).average_count(),
            final(self).pressures() == old(self).pressures(),
            final(self).previous() == old(self).previous(),
    {
        let mut r: Vec<(usize, i64)> = Vec::new();
        let mut i: usize = 0;
        while i < depths.len()
            invariant
                i <= depths@.len(),
                forall|a: int| 0 <= a < r@.len() ==> #[trigger] r@[a].1 == imbalance_of(bid_levels@, ask_levels@, r@[a].0 as int),
                forall|a: int| 0 <= a < r@.len() ==> -SCALE <= #[trigger] r@[a].1 <= SCALE,
                forall|a: int, b: int| 0 <= a < b < r@.len() ==> #[trigger] r@[a].0 != #[trigger] r@[b].0,
                forall|a: int| 0 <= a < r@.len() ==> depths@.contains(#[trigger] r@[a].0),
                forall|k: int| 0 <= k < i ==> exists|a: int| 0 <= a < r@.len() && #[trigger] r@[a].0 == #[trigger] depths@[k],
            decreases depths@.len() - i,
        {
            let depth = depths[i];
            let mut seen = false;
            let mut k: usize = 0;
            while k < r.len()
                invariant
                    k <= r@.len(),
                    seen == exists|a: int| 0 <= a < k && #[trigger] r@[a].0 == depth,
                decreases r@.len() - k,
            {
                if r[k].0 == depth {
                    seen = true;
                }
                k = k + 1;
            }
            assert(depths@.contains(depths@[i as int]));
            if !seen {
                let bid_volume = top_volume_of_pairs(bid_levels, depth);
                let ask_volume = top_volume_of_pairs(ask_levels, depth);
                let imbalance = difference_ratio_ppm(bid_volume, ask_volume, bid_volume + ask_volume);
                let ghost r0 = r@;
                r.push((depth, imbalance));
                assert forall|k2: int| 0 <= k2 <= i implies exists|a: int| 0 <= a < r@.len() && #[trigger] r@[a].0 == #[trigger] depths@[k2] by {
                    if k2 < i {
                        let a = choose|a: int| 0 <= a < r0.len() && #[trigger] r0[a].0 == depths@[k2];
                        assert(r@[a] == r0[a]);
                    } else {
                        assert(r@[r0.len() as int].0 == depths@[k2]);
                    }
                }
            }
            i = i + 1;
        }
        self.imbalance_by_depth = copy_depth_imbalances(&r);
        assert forall|d: usize| depths@.contains(d) implies exists|a: int| 0 <= a < r@.len() && #[trigger] r@[a].0 == d by {
            let k = choose|k: int| 0 <= k < depths@.len() && depths@[k] == d;
            assert(exists|a: int| 0 <= a < r@.len() && #[trigger] r@[a].0 == #[trigger] depths@[k]);
        }
        r
    }

    /// Velocity of the best prices since the previous reading, in millionths of a tick per
    /// second. The first reading only records the prices and returns (0, 0); a reading at a
    /// time not after the previous one changes nothing and returns the last velocities.
    pub fn calculate_pressure_at(&mut self, best_bid: u64, best_ask: u64, now: u64) -> (r: (i128, i128))
        requires
            old(self).wf(),
        ensures
            final(self).wf(),
            pressure_step(*old(self), *final(self), best_bid, best_ask, r, now),
            final(self).history() == old(self).history(),
            final(self).recent_whales() == old(self).recent_whales(),
            final(self).depth_imbalances() == old(self).depth_imbalances(),
            final(self).average_total() == old(self).average_total(),
            final(self).average_count() == old(self).average_count(),
    {
        if self.prev_timestamp_ms == 0 {
            self.prev_best_bid = best_bid;
            self.prev_best_ask = best_ask;
            self.prev_timestamp_ms = now;
            return (0, 0);
        }
        if now > self.prev_timestamp_ms {
            let elapsed = now - self.prev_timestamp_ms;
            self.bid_pressure = rate_of(best_bid as u128, self.prev_best_bid as u128, elapsed);
            self.ask_pressure = rate_of(best_ask as u128, self.prev_best_ask as u128, elapsed);
            self.prev_best_bid = best_bid;
            self.prev_best_ask = best_ask;
            self.prev_timestamp_ms = now;
        }
        (self.bid_pressure, self.ask_pressure)
    }

    /// `calculate_pressure_at` by the current time.
    pub fn calculate_pressure(&mut self, best_bid: u64, best_ask: u64) -> (r: (i128, i128))
        requires
            old(self).wf(),
        ensures
            final(self).wf(),
            exists|t: u64| #[trigger] pressure_step(*old(self), *final(self), best_bid, best_ask, r, t),
            old(self).previous().2 == 0 ==> {
                &&& r == (0i128, 0i128)
                &&& final(self).previous().0 == best_bid
                &&& final(self).previous().1 == best_ask
                &&& final(self).pressures() == old(self).pressures()
            },
            final(self).history() == old(self).history(),
            final(self).recent_whales() == old(self).recent_whales(),
            final(self).depth_imbalances() == old(self).depth_imbalances(),
            final(self).average_total() == old(self).average_total(),
            final(self).average_count() == old(self).average_count(),
    {
        let now = now_millis();
        let r = self.calculate_pressure_at(best_bid, best_ask, now);
        assert(pressure_step(*old(self), *final(self), best_bid, best_ask, r, now));
        r
    }

    /// Recency-weighted score of the large orders seen within `max_age_ms` of `now`, in
    /// millionths of a point, capped at 100 points; 0 for an empty window.
    pub fn whale_score_at(&self, max_age_ms: u64, now: u64) -> (r: u64)
        requires
            self.wf(),
        ensures
            r == whale_score_of(self.recent_whales(), max_age_ms, now),
            r <= 100 * SCALE,
    {
        if max_age_ms == 0 {
            return 0;
        }
        let cutoff = if now >= max_age_ms {
            now - max_age_ms
        } else {
            0
        };
        let ghost s = self.large_orders@;
        let n = self.large_orders.len();
        let mut sum: u128 = 0;
        let mut i: usize = 0;
        while i < n
            invariant
                n == s.len(),
                s == self.large_orders@,
                n <= MAX_LARGE_ORDERS,
                max_age_ms > 0,
                cutoff == cutoff_of(now, max_age_ms),
                i <= n,
                sum == whale_sum(s.subrange(0, i as int), now, max_age_ms),
                sum <= i * 0x1_0000_0000_0000_0000_0000_0000,
            decreases n - i,
        {
            let w = self.large_orders[i];
            assert(s.subrange(0, i as int + 1).drop_last() =~= s.subrange(0, i as int));
            if w.timestamp_ms >= cutoff {
                let age: u64 = if now >= w.timestamp_ms {
                    now - w.timestamp_ms
                } else {
                    0
                };
                assert(age <= max_age_ms);
                let factor: u128 = (max_age_ms - age) as u128 * 1_000_000 / max_age_ms as u128;
                assert(factor <= 1_000_000) by {
                    assert((max_age_ms - age) as u128 * 1_000_000 <= max_age_ms as u128 * 1_000_000) by (nonlinear_arith)
                        requires
                            age <= max_age_ms,
                    ;
                    vstd::arithmetic::div_mod::lemma_div_is_ordered((max_age_ms - age) as u128 * 1_000_000, max_age_ms as u128 * 1_000_000, max_age_ms as int);
                    vstd::arithmetic::div_mod::lemma_div_multiples_vanish(1_000_000, max_age_ms as int);
                }
                let excess: u128 = if w.size_multiplier > 3_000_000 {
                    (w.size_multiplier - 3_000_000) as u128
                } else {
                    0
                };
                assert(factor * excess * 10 <= 1_000_000 * 0xFFFF_FFFF_FFFF_FFFF * 10) by (nonlinear_arith)
                    requires
                        factor <= 1_000_000,
                        excess <= 0xFFFF_FFFF_FFFF_FFFF,
                ;
                let term: u128 = factor * excess * 10 / 1_000_000;
                assert(term <= 0x1_0000_0000_0000_0000_0000_0000) by {
                    vstd::arithmetic::div_mod::lemma_div_is_ordered_by_denominator(factor * excess * 10, 1, 1_000_000);
                }
                sum = sum + term;
            }
            i = i + 1;
        }
        assert(s.subrange(0, n as int) =~= s);
        if sum > 100_000_000 {
            100_000_000
        } else {
            sum as u64
        }
    }

    /// `whale_score_at` by the current time.
    pub fn whale_score(&self, max_age_ms: u64) -> (r: u64)
        requires
            self.wf(),
        ensures
            r <= 100 * SCALE,
            exists|t: u64| r == #[trigger] whale_score_of(self.recent_whales(), max_age_ms, t),
    {
        let now = now_millis();
        self.whale_score_at(max_age_ms, now)
    }

    /// Difference of bid and ask pressure times 100, clamped to [-100, 100] points, in
    /// millionths of a point.
    pub fn pressure_score(&self) -> (r: i64)
        requires
            self.wf(),
        ensures
            r == if (self.pressures().0 - self.pressures().1) * 100 > 100 * SCALE {
                100 * SCALE
            } else if (self.pressures().0 - self.pressures().1) * 100 < -100 * SCALE {
                -100 * SCALE
            } else {
                (self.pressures().0 - self.pressures().1) * 100
            },
    {
        let diff: i128 = (self.bid_pressure - self.ask_pressure) * 100;
        if diff > 100_000_000 {
            100_000_000
        } else if diff < -100_000_000 {
            -100_000_000
        } else {
            diff as i64
        }
    }

    /// Agreement of the imbalance across the recorded depths, in millionths: the
    /// consistency score of their standard deviation; 0 with fewer than two depths.
    pub fn depth_consistency(&self) -> (r: i64)
        requires
            self.wf(),
        ensures
            r == if self.depth_imbalances().len() < 2 {
                0
            } else {
                consistency_of(dispersion(self.depth_imbalances()))
            },
            0 <= r <= SCALE,
    {
        let n = self.imbalance_by_depth.len();
        if n < 2 {
            return 0;
        }
        let ghost s = self.imbalance_by_depth@;
        let mut sum: i128 = 0;
        let mut i: usize = 0;
        while i < n
            invariant
                n == s.len(),
                s == self.imbalance_by_depth@,
                self.wf(),
                i <= n,
                sum == imbalance_sum(s.subrange(0, i as int)),
                -(i as int) * 1_000_000 <= sum <= (i as int) * 1_000_000,
            decreases n - i,
        {
            assert(s.subrange(0, i as int + 1).drop_last() =~= s.subrange(0, i as int));
            assert(-SCALE <= s[i as int].1 <= SCALE);
            sum = sum + self.imbalance_by_depth[i].1 as i128;
            i = i + 1;
        }
        assert(s.subrange(0, n as int) =~= s);
        let mean: i128 = if sum >= 0 {
            sum / n as i128
        } else {
            -((-sum) / n as i128)
        };
        assert(-1_000_000 <= mean <= 1_000_000) by {
            let a: int = if sum >= 0 { sum as int } else { -sum };
            assert(a <= n as int * 1_000_000);
            vstd::arithmetic::div_mod::lemma_div_is_ordered(a, n as int * 1_000_000, n as int);
            vstd::arithmetic::div_mod::lemma_div_multiples_vanish(1_000_000, n as int);
            assert(n as int * 1_000_000 == 1_000_000 * n as int) by (nonlinear_arith);
            vstd::arithmetic::div_mod::lemma_div_pos_is_pos(a, n as int);
        }
        let mut sq: u128 = 0;
        let mut j: usize = 0;
        while j < n
            invariant
                n == s.len(),
                s == self.imbalance_by_depth@,
                self.wf(),
                -1_000_000 <= mean <= 1_000_000,
                mean == imbalance_mean(s),
                j <= n,
                sq == squared_deviation_sum(s.subrange(0, j as int), mean as int),
                sq <= (j as int) * 4_000_000_000_000,
            decreases n - j,
        {
            assert(s.subrange(0, j as int + 1).drop_last() =~= s.subrange(0, j as int));
            assert(-SCALE <= s[j as int].1 <= SCALE);
            let d: i128 = self.imbalance_by_depth[j].1 as i128 - mean;
            let a: u128 = if d >= 0 {
                d as u128
            } else {
                (-d) as u128
            };
            assert(a * a <= 4_000_000_000_000) by (nonlinear_arith)
                requires
                    a <= 2_000_000,
            ;
            assert(a * a == d * d) by (nonlinear_arith)
                requires
                    a == d || a == -d,
            ;
            sq = sq + a * a;
            j = j + 1;
        }
        assert(s.subrange(0, n as int) =~= s);
        let var: u128 = sq / n as u128;
        assert(var <= 4_000_000_000_000) by {
            vstd::arithmetic::div_mod::lemma_div_is_ordered(sq as int, n as int * 4_000_000_000_000, n as int);
            vstd::arithmetic::div_mod::lemma_div_multiples_vanish(4_000_000_000_000, n as int);
            assert(n as int * 4_000_000_000_000 == 4_000_000_000_000 * n as int) by (nonlinear_arith);
        }
        let sd: u64 = isqrt(var as u64);
        assert(sd <= 2_000_000) by {
            if sd > 2_000_000 {
                assert(sd * sd > 4_000_000_000_000) by (nonlinear_arith)
                    requires
                        sd > 2_000_000,
                ;
            }
        }
        let x: u128 = 2 * sd as u128;
        assert(x * x <= 16_000_000_000_000) by (nonlinear_arith)
            requires
                x <= 4_000_000,
        ;
        assert(x * x * x <= 64_000_000_000_000_000_000) by (nonlinear_arith)
            requires
                x <= 4_000_000,
                x * x <= 16_000_000_000_000,
        ;
        assert(x * x * x * x <= 256_000_000_000_000_000_000_000_000) by (nonlinear_arith)
            requires
                x <= 4_000_000,
                x * x * x <= 64_000_000_000_000_000_000,
        ;
        let s4: u128 = 1_000_000_000_000_000_000_000_000;
        let xx: u128 = x * x;
        let xxx: u128 = xx * x;
        let xxxx: u128 = xxx * x;
        assert(24_000_000_000_000_000_000 * x <= 96_000_000_000_000_000_000_000_000) by (nonlinear_arith)
            requires
                x <= 4_000_000,
        ;
        assert(12_000_000_000_000 * xx <= 192_000_000_000_000_000_000_000_000) by (nonlinear_arith)
            requires
                xx <= 16_000_000_000_000,
        ;
        assert(4_000_000 * xxx <= 256_000_000_000_000_000_000_000_000) by (nonlinear_arith)
            requires
                xxx <= 64_000_000_000_000_000_000,
        ;
        let den: u128 = 24 * s4 + 24_000_000_000_000_000_000 * x + 12_000_000_000_000 * xx + 4_000_000 * xxx + xxxx;
        let num: u128 = 24 * s4 * 1_000_000;
        let r: u128 = num / den;
        assert(r <= 1_000_000) by {
            vstd::arithmetic::div_mod::lemma_div_is_ordered_by_denominator(num as int, 24 * s4 as int, den as int);
            vstd::arithmetic::div_mod::lemma_div_multiples_vanish(1_000_000, 24 * s4 as int);
            assert(num as int == 1_000_000 * (24 * s4 as int));
        }
        assert(r == consistency_of(dispersion(s))) by {
            assert(var as int == squared_deviation_sum(s, imbalance_mean(s)) / (s.len() as int));
            assert(dispersion(s) == sd as int);
            let xi = 2 * dispersion(s);
            assert(xi == x as int);
            assert(xx as int == xi * xi);
            assert(xxx as int == xi * xi * xi);
            assert(xxxx as int == xi * xi * xi * xi);
            assert(den as int == 24 * 1_000_000int * 1_000_000 * 1_000_000 * 1_000_000 + 24 * 1_000_000int * 1_000_000 * 1_000_000 * xi
                + 12 * 1_000_000int * 1_000_000 * xi * xi + 4 * 1_000_000int * xi * xi * xi + xi * xi * xi * xi) by (nonlinear_arith)
                requires
                    xx as int == xi * xi,
                    xxx as int == xi * xi * xi,
                    xxxx as int == xi * xi * xi * xi,
                    den == 24 * s4 + 24_000_000_000_000_000_000 * x + 12_000_000_000_000 * xx + 4_000_000 * xxx + xxxx,
                    s4 == 1_000_000_000_000_000_000_000_000,
                    xi == x as int,
            ;
        }
        r as i64
    }
}

impl Default for OrderbookMetrics {
    fn default() -> (r: Self)
        ensures
            r.wf(),
            r.history() == Seq::<VolumeSnapshot>::empty(),
            r.depth_imbalances() == Seq::<(usize, i64)>::empty(),
            r.average_total() == 0,
            r.average_count() == 0,
            r.recent_whales() == Seq::<LargeOrder>::empty(),
    {
        OrderbookMetrics::new()
    }
}

/// The consistency score lies in [0, 1] for every dispersion, and is 1 for none.
pub proof fn lemma_consistency_bounded(sd: int)
    requires
        sd >= 0,
    ensures
        0 <= consistency_of(sd) <= SCALE,
        sd == 0 ==> consistency_of(sd) == SCALE,
{
    let s = SCALE as int;
    let x = 2 * sd;
    let num = 24 * s * s * s * s * s;
    let low = 24 * s * s * s * s;
    let den = low + 24 * s * s * s * x + 12 * s * s * x * x + 4 * s * x * x * x + x * x * x * x;
    assert(den >= low) by (nonlinear_arith)
        requires
            x >= 0,
            s == 1_000_000,
            den == low + 24 * s * s * s * x + 12 * s * s * x * x + 4 * s * x * x * x + x * x * x * x,
    ;
    assert(num == s * low);
    vstd::arithmetic::div_mod::lemma_div_is_ordered_by_denominator(num, low, den);
    vstd::arithmetic::div_mod::lemma_div_multiples_vanish(s, low);
    vstd::arithmetic::div_mod::lemma_div_pos_is_pos(num, den);
    if sd == 0 {
        assert(x == 0);
        assert(den == low) by (nonlinear_arith)
            requires
                x == 0,
                den == low + 24 * s * s * s * x + 12 * s * s * x * x + 4 * s * x * x * x + x * x * x * x,
        ;
    }
}

/// A small dispersion reads as consistent: one of at most 0.04 scores at least 0.9.
pub proof fn lemma_consistency_near_one(sd: int)
    requires
        0 <= sd <= 40_000,
    ensures
        consistency_of(sd) >= 900_000,
{
    let s = SCALE as int;
    let x = 2 * sd;
    let den = 24 * s * s * s * s + 24 * s * s * s * x + 12 * s * s * x * x + 4 * s * x * x * x + x * x * x * x;
    let bound = 26_600_000_000_000_000_000_000_000int;
    assert(den <= bound) by (nonlinear_arith)
        requires
            0 <= x <= 80_000,
            s == 1_000_000,
            den == 24 * s * s * s * s + 24 * s * s * s * x + 12 * s * s * x * x + 4 * s * x * x * x + x * x * x * x,
            bound == 26_600_000_000_000_000_000_000_000int,
    ;
    assert(den > 0);
    vstd::arithmetic::div_mod::lemma_div_is_ordered_by_denominator(24 * s * s * s * s * s, den, bound);
}

/// Widely dispersed imbalances read as inconsistent: a dispersion of 0.9 or more scores
/// below 0.2.
pub proof fn lemma_consistency_near_zero(sd: int)
    requires
        sd >= 900_000,
    ensures
        consistency_of(sd) < 200_000,
{
    let s = SCALE as int;
    let x = 2 * sd;
    let den = 24 * s * s * s * s + 24 * s * s * s * x + 12 * s * s * x * x + 4 * s * x * x * x + x * x * x * x;
    let bound = 139_000_000_000_000_000_000_000_000int;
    assert(den >= bound) by (nonlinear_arith)
        requires
            x >= 1_800_000,
            s == 1_000_000,
            den == 24 * s * s * s * s + 24 * s * s * s * x + 12 * s * s * x * x + 4 * s * x * x * x + x * x * x * x,
            bound == 139_000_000_000_000_000_000_000_000int,
    ;
    vstd::arithmetic::div_mod::lemma_div_is_ordered_by_denominator(24 * s * s * s * s * s, bound, den);
}

proof fn lemma_imbalance_sum_bounds(s: Seq<(usize, i64)>, lo: int, hi: int)
    requires
        forall|i: int| 0 <= i < s.len() ==> lo <= #[trigger] s[i].1 <= hi,
    ensures
        s.len() * lo <= imbalance_sum(s) <= s.len() * hi,
    decreases s.len(),
{
    if s.len() > 0 {
        let d = s.drop_last();
        assert forall|i: int| 0 <= i < d.len() implies lo <= #[trigger] d[i].1 <= hi by {
            assert(d[i] == s[i]);
        }
        lemma_imbalance_sum_bounds(d, lo, hi);
        assert(s.last() == s[s.len() - 1]);
        assert(s.len() * lo == d.len() * lo + lo && s.len() * hi == d.len() * hi + hi) by (nonlinear_arith)
            requires
                s.len() == d.len() + 1,
        ;
    }
}

proof fn lemma_squared_deviation_bound(s: Seq<(usize, i64)>, mean: int, w: int)
    requires
        w >= 0,
        forall|i: int| 0 <= i < s.len() ==> mean - w <= #[trigger] s[i].1 <= mean + w,
    ensures
        0 <= squared_deviation_sum(s, mean) <= s.len() * (w * w),
    decreases s.len(),
{
    if s.len() > 0 {
        let d = s.drop_last();
        assert forall|i: int| 0 <= i < d.len() implies mean - w <= #[trigger] d[i].1 <= mean + w by {
            assert(d[i] == s[i]);
        }
        lemma_squared_deviation_bound(d, mean, w);
        assert(s.last() == s[s.len() - 1]);
        let e = s.last().1 - mean;
        assert(0 <= e * e <= w * w) by (nonlinear_arith)
            requires
                -w <= e <= w,
        ;
        assert(s.len() * (w * w) == d.len() * (w * w) + w * w) by (nonlinear_arith)
            requires
                s.len() == d.len() + 1,
        ;
    }
}

/// Recorded imbalances that all lie within a band of width `w` have a dispersion of at
/// most `w`.
pub proof fn lemma_dispersion_within_band(s: Seq<(usize, i64)>, lo: int, w: int)
    requires
        s.len() > 0,
        w >= 0,
        forall|i: int| 0 <= i < s.len() ==> lo <= #[trigger] s[i].1 <= lo + w,
    ensures
        0 <= dispersion(s) <= w,
{
    let n = s.len() as int;
    lemma_imbalance_sum_bounds(s, lo, lo + w);
    let sum = imbalance_sum(s);
    let mean = imbalance_mean(s);
    vstd::arithmetic::div_mod::lemma_div_multiples_vanish(lo, n);
    vstd::arithmetic::div_mod::lemma_div_multiples_vanish(lo + w, n);
    vstd::arithmetic::div_mod::lemma_div_multiples_vanish(-lo, n);
    vstd::arithmetic::div_mod::lemma_div_multiples_vanish(-(lo + w), n);
    assert(n * lo == lo * n && n * (lo + w) == (lo + w) * n && n * (-lo) == (-lo) * n
        && n * (-(lo + w)) == (-(lo + w)) * n) by (nonlinear_arith);
    if sum >= 0 {
        vstd::arithmetic::div_mod::lemma_div_is_ordered(n * lo, sum, n);
        vstd::arithmetic::div_mod::lemma_div_is_ordered(sum, n * (lo + w), n);
    } else {
        assert(n * (-(lo + w)) == -(n * (lo + w)) && n * (-lo) == -(n * lo)) by (nonlinear_arith);
        vstd::arithmetic::div_mod::lemma_div_is_ordered(n * (-(lo + w)), -sum, n);
        vstd::arithmetic::div_mod::lemma_div_is_ordered(-sum, n * (-lo), n);
    }
    assert(lo <= mean <= lo + w);
    assert forall|i: int| 0 <= i < s.len() implies mean - w <= #[trigger] s[i].1 <= mean + w by {}
    lemma_squared_deviation_bound(s, mean, w);
    let q = squared_deviation_sum(s, mean);
    vstd::arithmetic::div_mod::lemma_div_is_ordered(q, n * (w * w), n);
    vstd::arithmetic::div_mod::lemma_div_multiples_vanish(w * w, n);
    assert(n * (w * w) == (w * w) * n) by (nonlinear_arith);
    vstd::arithmetic::div_mod::lemma_div_pos_is_pos(q, n);
    lemma_floor_sqrt_at_most(q / n, w);
}

/// Nearly equal recorded imbalances read as consistent: when every recorded imbalance
/// lies within a band of 0.04, the depth consistency is at least 0.9.
pub proof fn lemma_near_equal_imbalances_consistent(s: Seq<(usize, i64)>, lo: int)
    requires
        s.len() >= 2,
        forall|i: int| 0 <= i < s.len() ==> lo <= #[trigger] s[i].1 <= lo + 40_000,
    ensures
        consistency_of(dispersion(s)) >= 900_000,
{
    lemma_dispersion_within_band(s, lo, 40_000);
    lemma_consistency_near_one(dispersion(s));
}

/// Widely dispersed recorded imbalances read as inconsistent: two recorded depths whose
/// imbalances lie 1.8 or more apart (such as 0.9 and -0.9) give a depth consistency
/// below 0.2.
pub proof fn lemma_dispersed_imbalances_inconsistent(s: Seq<(usize, i64)>)
    requires
        s.len() == 2,
        s[0].1 - s[1].1 >= 1_800_000 || s[1].1 - s[0].1 >= 1_800_000,
    ensures
        consistency_of(dispersion(s)) < 200_000,
{
    let mean = imbalance_mean(s);
    let a = s[0].1 as int;
    let b = s[1].1 as int;
    let d1 = s.drop_last();
    assert(d1.drop_last() =~= Seq::<(usize, i64)>::empty());
    assert(d1.last() == s[0]);
    assert(s.last() == s[1]);
    assert(squared_deviation_sum(d1.drop_last(), mean) == 0);
    assert(squared_deviation_sum(d1, mean) == (a - mean) * (a - mean));
    let q = squared_deviation_sum(s, mean);
    assert(q == (a - mean) * (a - mean) + (b - mean) * (b - mean));
    assert(2 * q >= 3_240_000_000_000) by (nonlinear_arith)
        requires
            q == (a - mean) * (a - mean) + (b - mean) * (b - mean),
            a - b >= 1_800_000 || b - a >= 1_800_000,
    ;
    assert(q / 2 >= 810_000_000_000);
    lemma_floor_sqrt_at_least(q / 2, 900_000);
    lemma_consistency_near_zero(dispersion(s));
}

} // verus!
