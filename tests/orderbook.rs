use orderflow_book::fixed::SCALE;
use orderflow_book::orderbook::manager::{Orderbook, NO_ASK, NO_BID};

// Prices are in ticks of 0.1, quantities in lots of 0.1.

fn scenario_book() -> Orderbook {
    let mut ob = Orderbook::new("BTCUSDT".to_string());
    ob.apply_snapshot(vec![(500000, 15), (499990, 20)], vec![(500010, 13), (500020, 18)]);
    ob
}

#[test]
fn test_orderbook_snapshot() {
    let mut ob = Orderbook::new("BTCUSDT".to_string());
    let bids = vec![(500000, 15), (499990, 20)];
    let asks = vec![(500010, 13), (500020, 18)];
    ob.apply_snapshot(bids, asks);
    let (bid, ask) = ob.best_bid_ask();
    assert_eq!(bid, 500000);
    assert_eq!(ask, 500010);
}

#[test]
fn test_imbalance_calculation() {
    let mut ob = Orderbook::new("BTCUSDT".to_string());
    let bids = vec![(500000, 100), (499990, 50)];
    let asks = vec![(500010, 20), (500020, 30)];
    ob.apply_snapshot(bids, asks);
    let imbalance = ob.imbalance(2);
    assert!(imbalance > 0);
}

#[test]
fn test_orderbook_delta_updates() {
    let mut ob = Orderbook::new("BTCUSDT".to_string());
    ob.apply_snapshot(vec![(500000, 10)], vec![(500010, 10)]);
    ob.apply_delta(vec![(500005, 20)], vec![]);
    let (bid, _) = ob.best_bid_ask();
    assert_eq!(bid, 500005);
    ob.apply_delta(vec![(500005, 0)], vec![]);
    let (bid, _) = ob.best_bid_ask();
    assert_eq!(bid, 500000);
}

#[test]
fn snapshot_scenario_best_and_mid() {
    let ob = scenario_book();
    assert_eq!(ob.best_bid_ask(), (500000, 500010));
    assert_eq!(ob.mid_price(), 500005);
    assert_eq!(ob.update_count(), 1);
}

#[test]
fn delta_scenario_moves_and_reverts_best_bid() {
    let mut ob = scenario_book();
    ob.apply_delta(vec![(500005, 20)], vec![]);
    assert_eq!(ob.best_bid_ask().0, 500005);
    ob.apply_delta(vec![(500005, 0)], vec![]);
    assert_eq!(ob.best_bid_ask().0, 500000);
    assert_eq!(ob.update_count(), 1);
}

#[test]
fn new_book_publishes_sentinels() {
    let ob = Orderbook::new("ETHUSDT".to_string());
    assert_eq!(ob.best_bid_ask(), (NO_BID, NO_ASK));
    assert_eq!(ob.spread_pct(), SCALE);
    assert_eq!(ob.imbalance(5), 0);
    assert_eq!(ob.liquidity_depth(5), 0);
    assert_eq!(ob.update_count(), 0);
}

#[test]
fn snapshot_applied_twice_reads_the_same() {
    let mut ob = Orderbook::new("BTCUSDT".to_string());
    let bids = vec![(499990, 20), (500000, 15), (499980, 12)];
    let asks = vec![(500030, 21), (500010, 13), (500020, 18)];
    ob.apply_snapshot(bids.clone(), asks.clone());
    let first = (ob.best_bid_ask(), ob.imbalance(2), ob.liquidity_depth(3));
    ob.apply_snapshot(bids, asks);
    let second = (ob.best_bid_ask(), ob.imbalance(2), ob.liquidity_depth(3));
    assert_eq!(first, second);
    assert_eq!(ob.update_count(), 2);
}

#[test]
fn best_prices_are_extremes_of_unordered_input() {
    let mut ob = Orderbook::new("BTCUSDT".to_string());
    ob.apply_snapshot(
        vec![(499970, 1), (500000, 2), (499990, 3), (499999, 0)],
        vec![(500040, 4), (500010, 5), (500020, 6)],
    );
    assert_eq!(ob.best_bid_ask(), (500000, 500010));
    let (bids, asks) = ob.get_sorted_levels(10);
    let bid_prices: Vec<u64> = bids.iter().map(|l| l.price).collect();
    let ask_prices: Vec<u64> = asks.iter().map(|l| l.price).collect();
    assert_eq!(bid_prices, vec![500000, 499990, 499970]);
    assert_eq!(ask_prices, vec![500010, 500020, 500040]);
}

#[test]
fn empty_side_publishes_sentinel_after_rebuild() {
    let mut ob = scenario_book();
    ob.apply_snapshot(vec![], vec![(500010, 1)]);
    assert_eq!(ob.best_bid_ask(), (NO_BID, 500010));
    ob.apply_snapshot(vec![(500000, 1)], vec![]);
    assert_eq!(ob.best_bid_ask(), (500000, NO_ASK));
}

#[test]
fn zero_quantity_delta_removes_level_from_view() {
    let mut ob = scenario_book();
    ob.apply_delta(vec![(499990, 0)], vec![(500020, 0)]);
    let (bids, asks) = ob.get_sorted_levels(10);
    assert_eq!(bids.len(), 1);
    assert_eq!(asks.len(), 1);
    assert_eq!(bids[0].price, 500000);
    assert_eq!(asks[0].price, 500010);
    assert_eq!(ob.liquidity_depth(10), 15 + 13);
}

#[test]
fn interior_delta_leaves_view_stale() {
    let mut ob = scenario_book();
    ob.apply_delta(vec![(499990, 99)], vec![]);
    // Neither best price can have moved, so the sorted view is not rebuilt.
    assert_eq!(ob.liquidity_depth(10), 15 + 20 + 13 + 18);
    ob.apply_delta(vec![(500001, 1)], vec![]);
    assert_eq!(ob.liquidity_depth(10), 1 + 15 + 99 + 13 + 18);
}

#[test]
fn imbalance_exact_and_bounded() {
    let mut ob = Orderbook::new("BTCUSDT".to_string());
    ob.apply_snapshot(vec![(500000, 30), (499990, 10)], vec![(500010, 10), (500020, 50)]);
    // depth 1: (30 - 10) / 40 = 0.5
    assert_eq!(ob.imbalance(1), 500_000);
    // depth 2: (40 - 60) / 100 = -0.2
    assert_eq!(ob.imbalance(2), -200_000);
    ob.apply_snapshot(vec![(500000, 30)], vec![]);
    assert_eq!(ob.imbalance(3), SCALE);
    ob.apply_snapshot(vec![], vec![(500010, 7)]);
    assert_eq!(ob.imbalance(3), -SCALE);
    assert_eq!(ob.imbalance(0), 0);
}

#[test]
fn spread_is_relative_to_mid() {
    let ob = scenario_book();
    // (500010 - 500000) / 500005 = 0.0000199998...
    assert_eq!(ob.spread_pct(), 19);
    assert!(ob.spread_pct() > 0 && ob.spread_pct() < SCALE / 100);
}

#[test]
fn crossed_book_has_negative_spread() {
    let mut ob = Orderbook::new("BTCUSDT".to_string());
    ob.apply_snapshot(vec![(200, 1)], vec![(100, 1)]);
    // 2 * (100 - 200) / 300 = -0.666...
    assert_eq!(ob.spread_pct(), -666_666);
}

#[test]
fn latency_counts_from_last_update() {
    let mut ob = Orderbook::new("BTCUSDT".to_string());
    ob.apply_snapshot_at(vec![(1, 1)], vec![(2, 1)], 1_000);
    assert_eq!(ob.latency_at(1_500), 500);
    assert_eq!(ob.latency_at(900), 0);
    ob.apply_delta_at(vec![(1, 2)], vec![], 2_000);
    assert_eq!(ob.latency_at(2_250), 250);
    assert!(ob.latency_ms() > 0);
}

#[test]
fn test_orderbook_operations() {
    let mut ob = Orderbook::new("BTCUSDT".to_string());
    let bids = vec![(500000, 15), (499990, 20), (499980, 12)];
    let asks = vec![(500010, 13), (500020, 18), (500030, 21)];
    ob.apply_snapshot(bids, asks);
    let (bid, ask) = ob.best_bid_ask();
    assert_eq!(bid, 500000);
    assert_eq!(ask, 500010);
    let mid = ob.mid_price();
    assert_eq!(mid, 500005);
    let spread = ob.spread_pct();
    assert!(spread > 0);
    assert!(spread < SCALE / 100);
    // Bid volume 4.7 against ask volume 5.2: the imbalance leans to the asks.
    let imbalance = ob.imbalance(3);
    assert!(imbalance < 0);
    assert_eq!(imbalance, -50_505);
    let liquidity = ob.liquidity_depth(3);
    assert!(liquidity > 0);
    assert_eq!(liquidity, 99);
}
