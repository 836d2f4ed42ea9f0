//! The order-book engine: a price-level store per side, a sorted view per side
//! and the published best prices.
use vstd::prelude::*;
use dashmap::DashMap;
use crate::clock::now_millis;
use crate::fixed::{difference_ratio_ppm, lemma_doubled_fraction_bounded, ratio_ppm, SCALE};
use crate::orderbook::store::{
    store_clear, store_entries, store_insert, store_levels, store_new, store_remove,
};

verus! {

/// A price, in ticks of the traded symbol.
pub type Price = u64;

/// A quantity, in lots of the traded symbol.
pub type Quantity = u32;

/// The published best bid while no bid level exists.
pub const NO_BID: u64 = 0;

/// The published best ask while no ask level exists.
pub const NO_ASK: u64 = 0xFFFF_FFFF_FFFF_FFFF;

/// Largest total that a depth sum over one side can reach: below 2^96.
pub const VOLUME_BOUND: u128 = 0x1_0000_0000_0000_0000_0000_0000;

#[derive(Debug, Clone, Copy, PartialEq, Eq)]
pub struct OrderbookLevel {
    pub price: Price,
    pub quantity: Quantity,
    pub timestamp: u64,
}

/// `a` comes strictly before `b` on a side ordered descending (`desc`) or ascending.
pub open spec fn price_before(a: u64, b: u64, desc: bool) -> bool {
    if desc {
        a > b
    } else {
        a < b
    }
}

/// Price and quantity of each level, in order.
pub open spec fn pairs(s: Seq<OrderbookLevel>) -> Seq<(u64, u32)> {
    s.map_values(|l: OrderbookLevel| (l.price, l.quantity))
}

/// Prices strictly decrease (`desc`) or strictly increase along the sequence.
pub open spec fn strictly_ordered(s: Seq<(u64, u32)>, desc: bool) -> bool {
    forall|i: int, j: int| 0 <= i < j < s.len() ==> price_before(#[trigger] s[i].0, #[trigger] s[j].0, desc)
}

/// The sequence lists exactly the entries of `m`.
pub open spec fn mirrors(s: Seq<(u64, u32)>, m: Map<u64, u32>) -> bool {
    &&& forall|i: int| 0 <= i < s.len() ==> #[trigger] m.contains_key(s[i].0) && m[s[i].0] == s[i].1
    &&& forall|p: u64| #[trigger] m.contains_key(p) ==> exists|i: int| 0 <= i < s.len() && #[trigger] s[i].0 == p
}

/// Every quantity held is positive.
pub open spec fn all_positive(m: Map<u64, u32>) -> bool {
    forall|p: u64| #[trigger] m.contains_key(p) ==> m[p] > 0
}

/// Total quantity of a sequence of levels.
pub open spec fn volume(s: Seq<(u64, u32)>) -> int
    decreases s.len(),
{
    if s.len() == 0 {
        0
    } else {
        volume(s.drop_last()) + s.last().1
    }
}

/// Total quantity of the first `depth` levels (all of them if fewer).
pub open spec fn top_volume(s: Seq<(u64, u32)>, depth: int) -> int {
    if depth < s.len() {
        volume(s.subrange(0, depth))
    } else {
        volume(s)
    }
}

/// The published value of a side: the first price of its view, or the side's sentinel.
pub open spec fn published(s: Seq<(u64, u32)>, sentinel: u64) -> u64 {
    if s.len() == 0 {
        sentinel
    } else {
        s[0].0
    }
}

/// The levels after a snapshot: every entry with a positive quantity, later ones winning.
pub open spec fn snapshot_levels(ups: Seq<(u64, u32)>) -> Map<u64, u32>
    decreases ups.len(),
{
    if ups.len() == 0 {
        Map::empty()
    } else {
        let m = snapshot_levels(ups.drop_last());
        if ups.last().1 > 0 {
            m.insert(ups.last().0, ups.last().1)
        } else {
            m
        }
    }
}

/// The levels after a delta: a zero quantity removes the level, another sets it.
pub open spec fn delta_levels(m: Map<u64, u32>, ups: Seq<(u64, u32)>) -> Map<u64, u32>
    decreases ups.len(),
{
    if ups.len() == 0 {
        m
    } else {
        let m0 = delta_levels(m, ups.drop_last());
        if ups.last().1 == 0 {
            m0.remove(ups.last().0)
        } else {
            m0.insert(ups.last().0, ups.last().1)
        }
    }
}

/// A delta may have moved the best price of a side: it removes a level, or sets one
/// beyond the published best (above it for bids, below it for asks).
pub open spec fn best_may_move(ups: Seq<(u64, u32)>, best: u64, desc: bool) -> bool {
    exists|i: int| 0 <= i < ups.len() && #[trigger] moves_best(ups[i], best, desc)
}

/// One update may move the best price: it removes a level or sets one beyond `best`.
pub open spec fn moves_best(e: (u64, u32), best: u64, desc: bool) -> bool {
    e.1 == 0 || price_before(e.0, best, desc)
}

/// Milliseconds from `last` to `now`; 0 if `now` is earlier.
pub open spec fn latency_of(last: u64, now: u64) -> int {
    if now >= last {
        now - last
    } else {
        0
    }
}

/// Imbalance of the top `depth` levels of two views, in millionths: `(bid - ask) / (bid + ask)`,
/// 0 when both volumes are zero.
pub open spec fn imbalance_of(bids: Seq<(u64, u32)>, asks: Seq<(u64, u32)>, depth: int) -> int {
    ratio_ppm(
        top_volume(bids, depth) - top_volume(asks, depth),
        top_volume(bids, depth) + top_volume(asks, depth),
    )
}

/// Spread relative to the mid price, in millionths: `(ask - bid) / ((bid + ask) / 2)`;
/// 1.0 while no bid is published.
pub open spec fn spread_of(bid: u64, ask: u64) -> int {
    if bid == NO_BID {
        SCALE as int
    } else {
        ratio_ppm(2 * (ask - bid), ask + bid)
    }
}

pub struct Orderbook {
    pub symbol: String,
    bids: DashMap<u64, u32>,
    asks: DashMap<u64, u32>,
    sorted_bids: Vec<OrderbookLevel>,
    sorted_asks: Vec<OrderbookLevel>,
    best_bid: u64,
    best_ask: u64,
    last_update_time: u64,
    update_count: u64,
}

/// Relies on `slice::sort_unstable_by_key`: the entries are permuted into ascending
/// order of price; with distinct prices that order is strict.
#[verifier::external_body]
fn sort_by_price(v: &mut Vec<(u64, u32)>)
    requires
        forall|i: int, j: int| 0 <= i < j < old(v)@.len() ==> #[trigger] old(v)@[i].0 != #[trigger] old(v)@[j].0,
    ensures
        final(v)@.len() == old(v)@.len(),
        forall|x: (u64, u32)| #[trigger] final(v)@.contains(x) <==> old(v)@.contains(x),
        strictly_ordered(final(v)@, false),
{
    v.sort_unstable_by_key(|e| e.0);
}

/// Builds a sorted view from entries in ascending price order, reversed for `desc`.
fn build_view(sorted: &Vec<(u64, u32)>, desc: bool, now: u64) -> (r: Vec<OrderbookLevel>)
    ensures
        r@.len() == sorted@.len(),
        forall|i: int| 0 <= i < r@.len() ==> (#[trigger] r@[i]).timestamp == now,
        forall|i: int|
            0 <= i < r@.len() ==> (#[trigger] pairs(r@)[i]) == if desc {
                sorted@[sorted@.len() - 1 - i]
            } else {
                sorted@[i]
            },
{
    let n = sorted.len();
    let mut r: Vec<OrderbookLevel> = Vec::new();
    let mut i: usize = 0;
    while i < n
        invariant
            n == sorted@.len(),
            i <= n,
            r@.len() == i,
            forall|k: int| 0 <= k < i ==> (#[trigger] r@[k]).timestamp == now,
            forall|k: int|
                0 <= k < i ==> ((#[trigger] r@[k]).price, r@[k].quantity) == if desc {
                    sorted@[n - 1 - k]
                } else {
                    sorted@[k]
                },
        decreases n - i,
    {
        let e = if desc {
            sorted[n - 1 - i]
        } else {
            sorted[i]
        };
        r.push(OrderbookLevel { price: e.0, quantity: e.1, timestamp: now });
        i = i + 1;
    }
    r
}

/// The view of one side of a store: its entries ordered by price, descending for `desc`.
fn side_view(m: &DashMap<u64, u32>, desc: bool, now: u64) -> (r: Vec<OrderbookLevel>)
    requires
        all_positive(store_levels(*m)),
    ensures
        strictly_ordered(pairs(r@), desc),
        mirrors(pairs(r@), store_levels(*m)),
        forall|i: int| 0 <= i < r@.len() ==> (#[trigger] r@[i]).timestamp == now,
{
    let ghost lv = store_levels(*m);
    let mut entries = store_entries(m);
    let ghost e0 = entries@;
    sort_by_price(&mut entries);
    let ghost s = entries@;
    let r = build_view(&entries, desc, now);
    let ghost pr = pairs(r@);
    let ghost n = s.len();
    assert forall|i: int| 0 <= i < pr.len() implies #[trigger] lv.contains_key(pr[i].0) && lv[pr[i].0] == pr[i].1 by {
        let k = if desc { n - 1 - i } else { i };
        assert(pr[i] == s[k]);
        assert(s.contains(s[k]));
        assert(e0.contains(s[k]));
        let j = choose|j: int| 0 <= j < e0.len() && e0[j] == s[k];
        assert(lv.contains_key(e0[j].0));
    }
    assert forall|p: u64| #[trigger] lv.contains_key(p) implies exists|i: int| 0 <= i < pr.len() && #[trigger] pr[i].0 == p by {
        let j = choose|j: int| 0 <= j < e0.len() && #[trigger] e0[j].0 == p;
        assert(e0.contains(e0[j]));
        assert(s.contains(e0[j]));
        let k = choose|k: int| 0 <= k < s.len() && s[k] == e0[j];
        let i = if desc { n - 1 - k } else { k };
        assert(pr[i] == s[k]);
    }
    assert forall|i: int, j: int| 0 <= i < j < pr.len() implies price_before(#[trigger] pr[i].0, #[trigger] pr[j].0, desc) by {
        if desc {
            assert(pr[i] == s[n - 1 - i]);
            assert(pr[j] == s[n - 1 - j]);
        } else {
            assert(pr[i] == s[i]);
            assert(pr[j] == s[j]);
        }
    }
    r
}

proof fn lemma_volume_step(s: Seq<(u64, u32)>, i: int)
    requires
        0 <= i < s.len(),
    ensures
        volume(s.subrange(0, i + 1)) == volume(s.subrange(0, i)) + s[i].1,
{
    assert(s.subrange(0, i + 1).drop_last() =~= s.subrange(0, i));
}

/// Price and quantity of the first `depth` levels of a view (all of them if fewer).
fn prefix_pairs(levels: &Vec<OrderbookLevel>, depth: usize) -> (r: Vec<(u64, u32)>)
    ensures
        r@ == pairs(levels@).subrange(0, if (depth as int) < levels@.len() { depth as int } else { levels@.len() as int }),
{
    let n: usize = if depth < levels.len() {
        depth
    } else {
        levels.len()
    };
    let mut r: Vec<(u64, u32)> = Vec::new();
    let mut i: usize = 0;
    while i < n
        invariant
            n <= levels@.len(),
            i <= n,
            r@ == pairs(levels@).subrange(0, i as int),
        decreases n - i,
    {
        r.push((levels[i].price, levels[i].quantity));
        assert(r@ =~= pairs(levels@).subrange(0, i as int + 1));
        i = i + 1;
    }
    r
}

/// Sum of the quantities of the first `depth` levels of a view.
fn top_volume_of(levels: &Vec<OrderbookLevel>, depth: usize) -> (r: u128)
    ensures
        r == top_volume(pairs(levels@), depth as int),
        r < VOLUME_BOUND,
{
    let prefix = prefix_pairs(levels, depth);
    let r = top_volume_of_pairs(&prefix, prefix.len());
    assert(pairs(levels@).subrange(0, pairs(levels@).len() as int) =~= pairs(levels@));
    r
}

/// Sum of the quantities of the first `depth` entries of a level list.
pub(crate) fn top_volume_of_pairs(levels: &Vec<(u64, u32)>, depth: usize) -> (r: u128)
    ensures
        r == top_volume(levels@, depth as int),
        r <= (if (depth as int) < levels@.len() { depth as int } else { levels@.len() as int }) * 0xFFFF_FFFF,
        r < VOLUME_BOUND,
{
    let ghost s = levels@;
    let n: usize = if depth < levels.len() {
        depth
    } else {
        levels.len()
    };
    let mut sum: u128 = 0;
    let mut i: usize = 0;
    while i < n
        invariant
            n <= levels@.len(),
            n == if (depth as int) < s.len() { depth as int } else { s.len() as int },
            s == levels@,
            i <= n,
            sum == volume(s.subrange(0, i as int)),
            sum <= i * 0xFFFF_FFFFu128,
        decreases n - i,
    {
        proof {
            lemma_volume_step(s, i as int);
        }
        sum = sum + levels[i].1 as u128;
        i = i + 1;
    }
    assert(s.subrange(0, s.len() as int) =~= s);
    assert(sum <= 0xFFFF_FFFF_FFFF_FFFFu128 * 0xFFFF_FFFFu128) by (nonlinear_arith)
        requires
            sum <= i * 0xFFFF_FFFFu128,
            i <= 0xFFFF_FFFF_FFFF_FFFFu128,
    ;
    sum
}

proof fn lemma_snapshot_step(ups: Seq<(u64, u32)>, i: int)
    requires
        0 <= i < ups.len(),
    ensures
        snapshot_levels(ups.subrange(0, i + 1)) == if ups[i].1 > 0 {
            snapshot_levels(ups.subrange(0, i)).insert(ups[i].0, ups[i].1)
        } else {
            snapshot_levels(ups.subrange(0, i))
        },
{
    assert(ups.subrange(0, i + 1).drop_last() =~= ups.subrange(0, i));
}

proof fn lemma_delta_step(m: Map<u64, u32>, ups: Seq<(u64, u32)>, i: int)
    requires
        0 <= i < ups.len(),
    ensures
        delta_levels(m, ups.subrange(0, i + 1)) == if ups[i].1 == 0 {
            delta_levels(m, ups.subrange(0, i)).remove(ups[i].0)
        } else {
            delta_levels(m, ups.subrange(0, i)).insert(ups[i].0, ups[i].1)
        },
{
    assert(ups.subrange(0, i + 1).drop_last() =~= ups.subrange(0, i));
}

proof fn lemma_may_move_step(ups: Seq<(u64, u32)>, i: int, best: u64, desc: bool)
    requires
        0 <= i < ups.len(),
    ensures
        best_may_move(ups.subrange(0, i + 1), best, desc) == (best_may_move(ups.subrange(0, i), best, desc)
            || moves_best(ups[i], best, desc)),
{
    let before = ups.subrange(0, i);
    let after = ups.subrange(0, i + 1);
    if best_may_move(after, best, desc) {
        let k = choose|k: int| 0 <= k < after.len() && #[trigger] moves_best(after[k], best, desc);
        if k < i {
            assert(before[k] == after[k]);
        } else {
            assert(after[k] == ups[i]);
        }
    }
    if best_may_move(before, best, desc) {
        let k = choose|k: int| 0 <= k < before.len() && #[trigger] moves_best(before[k], best, desc);
        assert(after[k] == before[k]);
    }
    if moves_best(ups[i], best, desc) {
        assert(after[i] == ups[i]);
    }
}

/// Two sequences, both strictly ordered the same way and holding the same elements, are equal.
proof fn lemma_ordered_same_elements(s1: Seq<(u64, u32)>, s2: Seq<(u64, u32)>, desc: bool)
    requires
        strictly_ordered(s1, desc),
        strictly_ordered(s2, desc),
        forall|x: (u64, u32)| s1.contains(x) <==> s2.contains(x),
    ensures
        s1 == s2,
    decreases s1.len(),
{
    if s1.len() == 0 {
        if s2.len() > 0 {
            assert(s2.contains(s2[0]));
        }
        assert(s1 =~= s2);
    } else {
        assert(s1.contains(s1[0]));
        let j = choose|j: int| 0 <= j < s2.len() && s2[j] == s1[0];
        assert(s2.contains(s2[0]));
        let i = choose|i: int| 0 <= i < s1.len() && s1[i] == s2[0];
        if i > 0 {
            assert(price_before(s1[0].0, s1[i].0, desc));
            if j > 0 {
                assert(price_before(s2[0].0, s2[j].0, desc));
            }
            assert(false);
        }
        if j > 0 {
            assert(price_before(s2[0].0, s2[j].0, desc));
            assert(false);
        }
        let t1 = s1.drop_first();
        let t2 = s2.drop_first();
        assert forall|x: (u64, u32)| t1.contains(x) <==> t2.contains(x) by {
            if t1.contains(x) {
                let k = choose|k: int| 0 <= k < t1.len() && t1[k] == x;
                assert(s1[k + 1] == x);
                assert(price_before(s1[0].0, s1[k + 1].0, desc));
                assert(s1.contains(x));
                let m = choose|m: int| 0 <= m < s2.len() && s2[m] == x;
                assert(m != 0);
                assert(t2[m - 1] == x);
            }
            if t2.contains(x) {
                let k = choose|k: int| 0 <= k < t2.len() && t2[k] == x;
                assert(s2[k + 1] == x);
                assert(price_before(s2[0].0, s2[k + 1].0, desc));
                assert(s2.contains(x));
                let m = choose|m: int| 0 <= m < s1.len() && s1[m] == x;
                assert(m != 0);
                assert(t1[m - 1] == x);
            }
        }
        assert(strictly_ordered(t1, desc)) by {
            assert forall|a: int, b: int| 0 <= a < b < t1.len() implies price_before(#[trigger] t1[a].0, #[trigger] t1[b].0, desc) by {
                assert(t1[a] == s1[a + 1] && t1[b] == s1[b + 1]);
            }
        }
        assert(strictly_ordered(t2, desc)) by {
            assert forall|a: int, b: int| 0 <= a < b < t2.len() implies price_before(#[trigger] t2[a].0, #[trigger] t2[b].0, desc) by {
                assert(t2[a] == s2[a + 1] && t2[b] == s2[b + 1]);
            }
        }
        lemma_ordered_same_elements(t1, t2, desc);
        assert(s1 =~= seq![s1[0]] + t1);
        assert(s2 =~= seq![s2[0]] + t2);
    }
}

/// Two strictly ordered sequences that list exactly the entries of one map are equal.
proof fn lemma_mirror_unique(s1: Seq<(u64, u32)>, s2: Seq<(u64, u32)>, m: Map<u64, u32>, desc: bool)
    requires
        strictly_ordered(s1, desc),
        strictly_ordered(s2, desc),
        mirrors(s1, m),
        mirrors(s2, m),
    ensures
        s1 == s2,
{
    assert forall|x: (u64, u32)| s1.contains(x) <==> s2.contains(x) by {
        if s1.contains(x) {
            let k = choose|k: int| 0 <= k < s1.len() && s1[k] == x;
            assert(m.contains_key(s1[k].0));
            let j = choose|j: int| 0 <= j < s2.len() && #[trigger] s2[j].0 == x.0;
            assert(s2[j] == x);
        }
        if s2.contains(x) {
            let k = choose|k: int| 0 <= k < s2.len() && s2[k] == x;
            assert(m.contains_key(s2[k].0));
            let j = choose|j: int| 0 <= j < s1.len() && #[trigger] s1[j].0 == x.0;
            assert(s1[j] == x);
        }
    }
    lemma_ordered_same_elements(s1, s2, desc);
}

impl Orderbook {
    /// The bid levels held in the store.
    pub closed spec fn bid_levels(&self) -> Map<u64, u32> {
        store_levels(self.bids)
    }

    /// The ask levels held in the store.
    pub closed spec fn ask_levels(&self) -> Map<u64, u32> {
        store_levels(self.asks)
    }

    /// The sorted bid view: price and quantity, best first.
    pub closed spec fn bid_view(&self) -> Seq<(u64, u32)> {
        pairs(self.sorted_bids@)
    }

    /// The sorted ask view: price and quantity, best first.
    pub closed spec fn ask_view(&self) -> Seq<(u64, u32)> {
        pairs(self.sorted_asks@)
    }

    pub closed spec fn symbol_name(&self) -> String {
        self.symbol
    }

    pub closed spec fn best_bid_value(&self) -> u64 {
        self.best_bid
    }

    pub closed spec fn best_ask_value(&self) -> u64 {
        self.best_ask
    }

    pub closed spec fn last_update(&self) -> u64 {
        self.last_update_time
    }

    pub closed spec fn snapshots_applied(&self) -> u64 {
        self.update_count
    }

    /// The book's invariant: stored quantities are positive, each view is strictly
    /// ordered with positive quantities, and the best prices are the views' first prices.
    pub closed spec fn wf(&self) -> bool {
        &&& all_positive(self.bid_levels())
        &&& all_positive(self.ask_levels())
        &&& strictly_ordered(self.bid_view(), true)
        &&& strictly_ordered(self.ask_view(), false)
        &&& self.best_bid == published(self.bid_view(), NO_BID)
        &&& self.best_ask == published(self.ask_view(), NO_ASK)
    }

    /// Every level of both sorted views carries the refresh time `now`.
    pub closed spec fn views_stamped(&self, now: u64) -> bool {
        &&& forall|i: int| 0 <= i < self.sorted_bids@.len() ==> (#[trigger] self.sorted_bids@[i]).timestamp == now
        &&& forall|i: int| 0 <= i < self.sorted_asks@.len() ==> (#[trigger] self.sorted_asks@[i]).timestamp == now
    }

    /// Both sorted views list exactly the levels of the store.
    pub closed spec fn fresh(&self) -> bool {
        &&& mirrors(self.bid_view(), self.bid_levels())
        &&& mirrors(self.ask_view(), self.ask_levels())
    }

    pub fn new(symbol: String) -> (r: Self)
        ensures
            r.wf(),
            r.fresh(),
            r.symbol_name() == symbol,
            r.bid_levels() =~= Map::<u64, u32>::empty(),
            r.ask_levels() =~= Map::<u64, u32>::empty(),
            r.best_bid_value() == NO_BID,
            r.best_ask_value() == NO_ASK,
            r.last_update() == 0,
            r.snapshots_applied() == 0,
            r.bid_view() == Seq::<(u64, u32)>::empty(),
            r.ask_view() == Seq::<(u64, u32)>::empty(),
    {
        let r = Orderbook {
            symbol,
            bids: store_new(),
            asks: store_new(),
            sorted_bids: Vec::new(),
            sorted_asks: Vec::new(),
            best_bid: NO_BID,
            best_ask: NO_ASK,
            last_update_time: 0,
            update_count: 0,
        };
        assert(r.bid_view() =~= Seq::<(u64, u32)>::empty());
        assert(r.ask_view() =~= Seq::<(u64, u32)>::empty());
        r
    }

    /// Rebuilds both sorted views from the store and publishes the best prices.
    fn update_sorted_views(&mut self, now: u64)
        requires
            all_positive(old(self).bid_levels()),
            all_positive(old(self).ask_levels()),
        ensures
            final(self).wf(),
            final(self).fresh(),
            final(self).views_stamped(now),
            final(self).bids == old(self).bids,
            final(self).asks == old(self).asks,
            final(self).symbol == old(self).symbol,
            final(self).last_update_time == old(self).last_update_time,
            final(self).update_count == old(self).update_count,
    {
        let bids = side_view(&self.bids, true, now);
        self.best_bid = if bids.len() == 0 {
            NO_BID
        } else {
            bids[0].price
        };
        self.sorted_bids = bids;
        let asks = side_view(&self.asks, false, now);
        self.best_ask = if asks.len() == 0 {
            NO_ASK
        } else {
            asks[0].price
        };
        self.sorted_asks = asks;
    }

    /// Replaces the whole book with the snapshot at time `now`: both stores then hold the
    /// entries with positive quantity, both views are rebuilt and the counter is advanced.
    pub fn apply_snapshot_at(&mut self, bids: Vec<(u64, u32)>, asks: Vec<(u64, u32)>, now: u64)
        requires
            old(self).wf(),
        ensures
            snapshot_result(*final(self), bids@, asks@),
            final(self).views_stamped(now),
            final(self).symbol_name() == old(self).symbol_name(),
            final(self).last_update() == now,
            final(self).snapshots_applied() == if old(self).snapshots_applied() == 0xFFFF_FFFF_FFFF_FFFFu64 {
                0
            } else {
                old(self).snapshots_applied() + 1
            },
    {
        store_clear(&mut self.bids);
        store_clear(&mut self.asks);
        let mut i: usize = 0;
        while i < bids.len()
            invariant
                i <= bids@.len(),
                store_levels(self.bids) == snapshot_levels(bids@.subrange(0, i as int)),
                all_positive(store_levels(self.bids)),
                store_levels(self.asks) =~= Map::<u64, u32>::empty(),
                self.symbol == old(self).symbol,
                self.update_count == old(self).update_count,
            decreases bids@.len() - i,
        {
            proof {
                lemma_snapshot_step(bids@, i as int);
            }
            let (p, q) = bids[i];
            if q > 0 {
                store_insert(&mut self.bids, p, q);
            }
            i = i + 1;
        }
        assert(bids@.subrange(0, bids@.len() as int) =~= bids@);
        let mut j: usize = 0;
        while j < asks.len()
            invariant
                j <= asks@.len(),
                store_levels(self.asks) == snapshot_levels(asks@.subrange(0, j as int)),
                all_positive(store_levels(self.asks)),
                store_levels(self.bids) == snapshot_levels(bids@),
                all_positive(store_levels(self.bids)),
                self.symbol == old(self).symbol,
                self.update_count == old(self).update_count,
            decreases asks@.len() - j,
        {
            proof {
                lemma_snapshot_step(asks@, j as int);
            }
            let (p, q) = asks[j];
            if q > 0 {
                store_insert(&mut self.asks, p, q);
            }
            j = j + 1;
        }
        assert(asks@.subrange(0, asks@.len() as int) =~= asks@);
        self.update_sorted_views(now);
        self.last_update_time = now;
        self.update_count = if self.update_count == 0xFFFF_FFFF_FFFF_FFFFu64 {
            0
        } else {
            self.update_count + 1
        };
    }

    /// Replaces the whole book with the snapshot, stamped with the current time.
    pub fn apply_snapshot(&mut self, bids: Vec<(u64, u32)>, asks: Vec<(u64, u32)>)
        requires
            old(self).wf(),
        ensures
            snapshot_result(*final(self), bids@, asks@),
            final(self).symbol_name() == old(self).symbol_name(),
            final(self).snapshots_applied() == if old(self).snapshots_applied() == 0xFFFF_FFFF_FFFF_FFFFu64 {
                0
            } else {
                old(self).snapshots_applied() + 1
            },
            exists|t: u64| #[trigger] final(self).views_stamped(t) && final(self).last_update() == t,
    {
        let now = now_millis();
        self.apply_snapshot_at(bids, asks, now);
        assert(final(self).views_stamped(now) && final(self).last_update() == now);
    }

    /// Applies an incremental update at time `now`. A zero quantity removes the level,
    /// another sets it. The views are rebuilt only when a best price may have moved.
    pub fn apply_delta_at(&mut self, bids: Vec<(u64, u32)>, asks: Vec<(u64, u32)>, now: u64)
        requires
            old(self).wf(),
        ensures
            delta_result(*old(self), *final(self), bids@, asks@),
            best_may_move(bids@, old(self).best_bid_value(), true) || best_may_move(asks@, old(self).best_ask_value(), false)
                ==> final(self).views_stamped(now),
            final(self).symbol_name() == old(self).symbol_name(),
            final(self).last_update() == now,
            final(self).snapshots_applied() == old(self).snapshots_applied(),
    {
        let ghost b0 = store_levels(self.bids);
        let ghost a0 = store_levels(self.asks);
        let mut best_bid_changed = false;
        let mut best_ask_changed = false;
        let mut i: usize = 0;
        while i < bids.len()
            invariant
                i <= bids@.len(),
                self.wf() == old(self).wf(),
                old(self).wf(),
                self.best_bid == old(self).best_bid,
                self.best_ask == old(self).best_ask,
                self.sorted_bids == old(self).sorted_bids,
                self.sorted_asks == old(self).sorted_asks,
                self.symbol == old(self).symbol,
                self.last_update_time == old(self).last_update_time,
                self.update_count == old(self).update_count,
                b0 == store_levels(old(self).bids),
                a0 == store_levels(old(self).asks),
                store_levels(self.bids) == delta_levels(b0, bids@.subrange(0, i as int)),
                store_levels(self.asks) == a0,
                all_positive(store_levels(self.bids)),
                best_bid_changed == best_may_move(bids@.subrange(0, i as int), self.best_bid, true),
            decreases bids@.len() - i,
        {
            proof {
                lemma_delta_step(b0, bids@, i as int);
                lemma_may_move_step(bids@, i as int, self.best_bid, true);
            }
            let (p, q) = bids[i];
            if q == 0 {
                store_remove(&mut self.bids, p);
                best_bid_changed = true;
            } else {
                store_insert(&mut self.bids, p, q);
                if p > self.best_bid {
                    best_bid_changed = true;
                }
            }
            i = i + 1;
        }
        assert(bids@.subrange(0, bids@.len() as int) =~= bids@);
        let mut j: usize = 0;
        while j < asks.len()
            invariant
                j <= asks@.len(),
                old(self).wf(),
                self.best_bid == old(self).best_bid,
                self.best_ask == old(self).best_ask,
                self.sorted_bids == old(self).sorted_bids,
                self.sorted_asks == old(self).sorted_asks,
                self.symbol == old(self).symbol,
                self.last_update_time == old(self).last_update_time,
                self.update_count == old(self).update_count,
                a0 == store_levels(old(self).asks),
                store_levels(self.bids) == delta_levels(b0, bids@),
                all_positive(store_levels(self.bids)),
                store_levels(self.asks) == delta_levels(a0, asks@.subrange(0, j as int)),
                all_positive(store_levels(self.asks)),
                best_bid_changed == best_may_move(bids@, self.best_bid, true),
                best_ask_changed == best_may_move(asks@.subrange(0, j as int), self.best_ask, false),
            decreases asks@.len() - j,
        {
            proof {
                lemma_delta_step(a0, asks@, j as int);
                lemma_may_move_step(asks@, j as int, self.best_ask, false);
            }
            let (p, q) = asks[j];
            if q == 0 {
                store_remove(&mut self.asks, p);
                best_ask_changed = true;
            } else {
                store_insert(&mut self.asks, p, q);
                if p < self.best_ask {
                    best_ask_changed = true;
                }
            }
            j = j + 1;
        }
        assert(asks@.subrange(0, asks@.len() as int) =~= asks@);
        if best_bid_changed || best_ask_changed {
            self.update_sorted_views(now);
        }
        self.last_update_time = now;
    }

    /// Applies an incremental update, stamped with the current time.
    pub fn apply_delta(&mut self, bids: Vec<(u64, u32)>, asks: Vec<(u64, u32)>)
        requires
            old(self).wf(),
        ensures
            delta_result(*old(self), *final(self), bids@, asks@),
            final(self).symbol_name() == old(self).symbol_name(),
            final(self).snapshots_applied() == old(self).snapshots_applied(),
            exists|t: u64| #[trigger] delta_stamped(*old(self), *final(self), bids@, asks@, t),
    {
        let now = now_millis();
        self.apply_delta_at(bids, asks, now);
        assert(delta_stamped(*old(self), *final(self), bids@, asks@, now));
    }

    /// The published best bid and best ask; `NO_BID` and `NO_ASK` while a side is empty.
    pub fn best_bid_ask(&self) -> (r: (u64, u64))
        ensures
            r == (self.best_bid_value(), self.best_ask_value()),
    {
        (self.best_bid, self.best_ask)
    }

    /// Midpoint of the published best prices, rounded down.
    pub fn mid_price(&self) -> (r: u64)
        ensures
            r == (self.best_bid_value() + self.best_ask_value()) / 2,
    {
        let sum: u128 = self.best_bid as u128 + self.best_ask as u128;
        (sum / 2) as u64
    }

    /// Spread over the mid price in millionths; `SCALE` (1.0) while no bid is published.
    pub fn spread_pct(&self) -> (r: i64)
        ensures
            r == spread_of(self.best_bid_value(), self.best_ask_value()),
            self.best_bid_value() != NO_BID ==> -2 * SCALE <= r <= 2 * SCALE,
    {
        let bid = self.best_bid;
        let ask = self.best_ask;
        if bid == NO_BID {
            return SCALE;
        }
        let den: u128 = bid as u128 + ask as u128;
        if ask >= bid {
            let n: u128 = (ask - bid) as u128;
            assert(2 * n * 1_000_000 <= 2 * den * 1_000_000) by (nonlinear_arith)
                requires
                    n <= den,
            ;
            proof {
                lemma_doubled_fraction_bounded(n as int, den as int);
            }
            let q: u128 = 2 * n * 1_000_000 / den;
            q as i64
        } else {
            let n: u128 = (bid - ask) as u128;
            assert(2 * n * 1_000_000 <= 2 * den * 1_000_000) by (nonlinear_arith)
                requires
                    n <= den,
            ;
            proof {
                lemma_doubled_fraction_bounded(n as int, den as int);
            }
            let q: u128 = 2 * n * 1_000_000 / den;
            assert(-(2 * (ask - bid)) == 2 * n);
            -(q as i64)
        }
    }

    /// Imbalance of the top `depth` levels of the sorted views, in millionths.
    pub fn imbalance(&self, depth: usize) -> (r: i64)
        ensures
            r == imbalance_of(self.bid_view(), self.ask_view(), depth as int),
            -SCALE <= r <= SCALE,
            top_volume(self.bid_view(), depth as int) + top_volume(self.ask_view(), depth as int) == 0 ==> r == 0,
    {
        let bid_volume = top_volume_of(&self.sorted_bids, depth);
        let ask_volume = top_volume_of(&self.sorted_asks, depth);
        difference_ratio_ppm(bid_volume, ask_volume, bid_volume + ask_volume)
    }

    /// Total quantity of the top `depth` levels of both sorted views.
    pub fn liquidity_depth(&self, depth: usize) -> (r: u128)
        ensures
            r == top_volume(self.bid_view(), depth as int) + top_volume(self.ask_view(), depth as int),
    {
        let bid_volume = top_volume_of(&self.sorted_bids, depth);
        let ask_volume = top_volume_of(&self.sorted_asks, depth);
        bid_volume + ask_volume
    }

    /// The first `depth` levels of each sorted view (fewer where a side holds fewer).
    pub fn get_sorted_levels(&self, depth: usize) -> (r: (Vec<OrderbookLevel>, Vec<OrderbookLevel>))
        ensures
            pairs(r.0@) == self.bid_view().subrange(0, if (depth as int) < self.bid_view().len() { depth as int } else { self.bid_view().len() as int }),
            pairs(r.1@) == self.ask_view().subrange(0, if (depth as int) < self.ask_view().len() { depth as int } else { self.ask_view().len() as int }),
    {
        (take_levels(&self.sorted_bids, depth), take_levels(&self.sorted_asks, depth))
    }

    /// Milliseconds from the last update to `now`; 0 if `now` is earlier.
    pub fn latency_at(&self, now: u64) -> (r: u64)
        ensures
            r == latency_of(self.last_update(), now),
    {
        now.saturating_sub(self.last_update_time)
    }

    /// Milliseconds since the last update, by the wall clock.
    pub fn latency_ms(&self) -> (r: u64)
        ensures
            exists|t: u64| r == #[trigger] latency_of(self.last_update(), t),
    {
        let now = now_millis();
        self.latency_at(now)
    }

    /// Number of snapshots applied (deltas do not count).
    pub fn update_count(&self) -> (r: u64)
        ensures
            r == self.snapshots_applied(),
    {
        self.update_count
    }
}

/// The first `depth` levels of a view.
fn take_levels(levels: &Vec<OrderbookLevel>, depth: usize) -> (r: Vec<OrderbookLevel>)
    ensures
        pairs(r@) == pairs(levels@).subrange(0, if (depth as int) < levels@.len() { depth as int } else { levels@.len() as int }),
{
    let n: usize = if depth < levels.len() {
        depth
    } else {
        levels.len()
    };
    let mut r: Vec<OrderbookLevel> = Vec::new();
    let mut i: usize = 0;
    while i < n
        invariant
            n <= levels@.len(),
            i <= n,
            r@ == levels@.subrange(0, i as int),
        decreases n - i,
    {
        r.push(levels[i]);
        i = i + 1;
    }
    assert(pairs(r@) =~= pairs(levels@).subrange(0, n as int));
    r
}

/// `book` is what a snapshot of `bids` and `asks` leaves: each store holds the snapshot's
/// positive entries and both views are rebuilt from them.
pub open spec fn snapshot_result(book: Orderbook, bids: Seq<(u64, u32)>, asks: Seq<(u64, u32)>) -> bool {
    &&& book.wf()
    &&& book.fresh()
    &&& book.bid_levels() == snapshot_levels(bids)
    &&& book.ask_levels() == snapshot_levels(asks)
}

/// A delta applied at time `t` stamped the book with `t`, and its views too when it
/// rebuilt them.
pub open spec fn delta_stamped(before: Orderbook, after: Orderbook, bids: Seq<(u64, u32)>, asks: Seq<(u64, u32)>, t: u64) -> bool {
    &&& after.last_update() == t
    &&& best_may_move(bids, before.best_bid_value(), true) || best_may_move(asks, before.best_ask_value(), false)
        ==> after.views_stamped(t)
}

/// `after` is what a delta of `bids` and `asks` leaves of `before`: each store is updated
/// entry by entry; the views are rebuilt when a best price may have moved, else untouched.
pub open spec fn delta_result(before: Orderbook, after: Orderbook, bids: Seq<(u64, u32)>, asks: Seq<(u64, u32)>) -> bool {
    &&& after.wf()
    &&& after.bid_levels() == delta_levels(before.bid_levels(), bids)
    &&& after.ask_levels() == delta_levels(before.ask_levels(), asks)
    &&& if best_may_move(bids, before.best_bid_value(), true) || best_may_move(asks, before.best_ask_value(), false) {
        after.fresh()
    } else {
        &&& after.bid_view() == before.bid_view()
        &&& after.ask_view() == before.ask_view()
        &&& after.best_bid_value() == before.best_bid_value()
        &&& after.best_ask_value() == before.best_ask_value()
    }
}

proof fn lemma_delta_removes(m: Map<u64, u32>, ups: Seq<(u64, u32)>, i: int)
    requires
        0 <= i < ups.len(),
        ups[i].1 == 0,
        forall|j: int| i < j < ups.len() ==> (#[trigger] ups[j]).0 != ups[i].0,
    ensures
        !delta_levels(m, ups).contains_key(ups[i].0),
    decreases ups.len(),
{
    if i < ups.len() - 1 {
        let d = ups.drop_last();
        assert forall|j: int| i < j < d.len() implies (#[trigger] d[j]).0 != d[i].0 by {
            assert(d[j] == ups[j]);
        }
        lemma_delta_removes(m, d, i);
        assert(ups.last() == ups[ups.len() - 1]);
    }
}

/// After a full rebuild the published best bid is the highest bid price held and the
/// published best ask the lowest ask price held; an empty side publishes its sentinel.
pub proof fn lemma_best_price_correct(book: Orderbook)
    requires
        book.wf(),
        book.fresh(),
    ensures
        (forall|p: u64| !book.bid_levels().contains_key(p)) ==> book.best_bid_value() == NO_BID,
        (forall|p: u64| !book.ask_levels().contains_key(p)) ==> book.best_ask_value() == NO_ASK,
        (exists|p: u64| book.bid_levels().contains_key(p)) ==> {
            &&& book.bid_levels().contains_key(book.best_bid_value())
            &&& forall|p: u64| #[trigger] book.bid_levels().contains_key(p) ==> p <= book.best_bid_value()
        },
        (exists|p: u64| book.ask_levels().contains_key(p)) ==> {
            &&& book.ask_levels().contains_key(book.best_ask_value())
            &&& forall|p: u64| #[trigger] book.ask_levels().contains_key(p) ==> book.best_ask_value() <= p
        },
{
    let bv = book.bid_view();
    let av = book.ask_view();
    if bv.len() > 0 {
        assert(book.bid_levels().contains_key(bv[0].0));
    }
    if av.len() > 0 {
        assert(book.ask_levels().contains_key(av[0].0));
    }
    if exists|p: u64| book.bid_levels().contains_key(p) {
        let p = choose|p: u64| book.bid_levels().contains_key(p);
        let i = choose|i: int| 0 <= i < bv.len() && #[trigger] bv[i].0 == p;
        assert forall|q: u64| #[trigger] book.bid_levels().contains_key(q) implies q <= book.best_bid_value() by {
            let k = choose|k: int| 0 <= k < bv.len() && #[trigger] bv[k].0 == q;
            if k > 0 {
                assert(price_before(bv[0].0, bv[k].0, true));
            }
        }
    }
    if exists|p: u64| book.ask_levels().contains_key(p) {
        let p = choose|p: u64| book.ask_levels().contains_key(p);
        let i = choose|i: int| 0 <= i < av.len() && #[trigger] av[i].0 == p;
        assert forall|q: u64| #[trigger] book.ask_levels().contains_key(q) implies book.best_ask_value() <= q by {
            let k = choose|k: int| 0 <= k < av.len() && #[trigger] av[k].0 == q;
            if k > 0 {
                assert(price_before(av[0].0, av[k].0, false));
            }
        }
    }
}

/// Applying the same snapshot twice leaves the same book to its readers: the same best
/// prices, the same sorted views, hence the same imbalance and liquidity at every depth.
pub proof fn lemma_snapshot_idempotent(
    first: Orderbook,
    second: Orderbook,
    bids: Seq<(u64, u32)>,
    asks: Seq<(u64, u32)>,
)
    requires
        snapshot_result(first, bids, asks),
        snapshot_result(second, bids, asks),
    ensures
        first.best_bid_value() == second.best_bid_value(),
        first.best_ask_value() == second.best_ask_value(),
        first.bid_view() == second.bid_view(),
        first.ask_view() == second.ask_view(),
        forall|depth: int|
            #[trigger] imbalance_of(first.bid_view(), first.ask_view(), depth) == imbalance_of(
                second.bid_view(),
                second.ask_view(),
                depth,
            ),
        forall|depth: int|
            #[trigger] top_volume(first.bid_view(), depth) + top_volume(first.ask_view(), depth)
                == top_volume(second.bid_view(), depth) + top_volume(second.ask_view(), depth),
{
    lemma_mirror_unique(first.bid_view(), second.bid_view(), first.bid_levels(), true);
    lemma_mirror_unique(first.ask_view(), second.ask_view(), first.ask_levels(), false);
}

/// A delta entry with quantity zero, not followed by another entry at the same price,
/// removes that price from the store and from the sorted view of its side.
pub proof fn lemma_zero_quantity_deletion(
    before: Orderbook,
    after: Orderbook,
    bids: Seq<(u64, u32)>,
    asks: Seq<(u64, u32)>,
    i: int,
    ask_side: bool,
)
    requires
        delta_result(before, after, bids, asks),
        ask_side ==> 0 <= i < asks.len() && asks[i].1 == 0
            && forall|j: int| i < j < asks.len() ==> (#[trigger] asks[j]).0 != asks[i].0,
        !ask_side ==> 0 <= i < bids.len() && bids[i].1 == 0
            && forall|j: int| i < j < bids.len() ==> (#[trigger] bids[j]).0 != bids[i].0,
    ensures
        ask_side ==> !after.ask_levels().contains_key(asks[i].0)
            && forall|k: int| 0 <= k < after.ask_view().len() ==> (#[trigger] after.ask_view()[k]).0 != asks[i].0,
        !ask_side ==> !after.bid_levels().contains_key(bids[i].0)
            && forall|k: int| 0 <= k < after.bid_view().len() ==> (#[trigger] after.bid_view()[k]).0 != bids[i].0,
{
    if ask_side {
        lemma_delta_removes(before.ask_levels(), asks, i);
        assert(moves_best(asks[i], before.best_ask_value(), false));
        assert(after.fresh());
        assert forall|k: int| 0 <= k < after.ask_view().len() implies (#[trigger] after.ask_view()[k]).0 != asks[i].0 by {
            assert(after.ask_levels().contains_key(after.ask_view()[k].0));
        }
    } else {
        lemma_delta_removes(before.bid_levels(), bids, i);
        assert(moves_best(bids[i], before.best_bid_value(), true));
        assert(after.fresh());
        assert forall|k: int| 0 <= k < after.bid_view().len() implies (#[trigger] after.bid_view()[k]).0 != bids[i].0 by {
            assert(after.bid_levels().contains_key(after.bid_view()[k].0));
        }
    }
}

/// What the book's invariant says to a reader: stored quantities are positive, the bid
/// view is strictly descending and the ask view strictly ascending, and the published
/// best prices are the views' first prices (or the sentinels).
pub proof fn lemma_book_invariant(book: Orderbook)
    requires
        book.wf(),
    ensures
        all_positive(book.bid_levels()),
        all_positive(book.ask_levels()),
        strictly_ordered(book.bid_view(), true),
        strictly_ordered(book.ask_view(), false),
        book.best_bid_value() == published(book.bid_view(), NO_BID),
        book.best_ask_value() == published(book.ask_view(), NO_ASK),
{
}

/// After a full rebuild each view is its side's store sorted by price: it lists exactly
/// the stored levels, bids highest first and asks lowest first, and any other sequence
/// so ordered that lists them is the view itself.
pub proof fn lemma_views_are_sorted_store(book: Orderbook)
    requires
        book.wf(),
        book.fresh(),
    ensures
        mirrors(book.bid_view(), book.bid_levels()),
        mirrors(book.ask_view(), book.ask_levels()),
        strictly_ordered(book.bid_view(), true),
        strictly_ordered(book.ask_view(), false),
        forall|s: Seq<(u64, u32)>|
            strictly_ordered(s, true) && mirrors(s, book.bid_levels()) ==> s == book.bid_view(),
        forall|s: Seq<(u64, u32)>|
            strictly_ordered(s, false) && mirrors(s, book.ask_levels()) ==> s == book.ask_view(),
{
    assert forall|s: Seq<(u64, u32)>|
        strictly_ordered(s, true) && mirrors(s, book.bid_levels()) implies s == book.bid_view() by {
        lemma_mirror_unique(s, book.bid_view(), book.bid_levels(), true);
    }
    assert forall|s: Seq<(u64, u32)>|
        strictly_ordered(s, false) && mirrors(s, book.ask_levels()) implies s == book.ask_view() by {
        lemma_mirror_unique(s, book.ask_view(), book.ask_levels(), false);
    }
}

} // verus!
