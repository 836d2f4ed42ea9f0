use orderflow_book::orderbook::metrics::{OrderSide, OrderbookMetrics};

#[test]
fn test_volume_snapshot() {
    let mut metrics = OrderbookMetrics::new();
    metrics.add_snapshot(100, 80);
    metrics.add_snapshot(120, 90);
    assert_eq!(metrics.volume_history_len(), 2);
}

#[test]
fn test_multi_level_imbalance() {
    let mut metrics = OrderbookMetrics::new();
    let bids = vec![(500000, 100), (499990, 50), (499980, 30)];
    let asks = vec![(500010, 20), (500020, 10), (500030, 10)];
    let depths = vec![2, 3];
    let imbalances = metrics.calculate_multi_level_imbalance(&bids, &asks, &depths);
    let at = |d: usize| imbalances.iter().find(|e| e.0 == d).map(|e| e.1);
    assert!(at(2).is_some());
    assert!(at(3).is_some());
    assert!(at(2).unwrap() > 0);
}

fn depth_levels() -> (Vec<(u64, u32)>, Vec<(u64, u32)>) {
    let bid_qty: [u32; 20] = [3, 3, 3, 3, 3, 5, 5, 5, 4, 4, 4, 4, 4, 4, 4, 4, 3, 3, 3, 3];
    let ask_qty: [u32; 20] = [1, 1, 1, 1, 1, 2, 2, 1, 1, 1, 2, 2, 2, 2, 1, 1, 1, 1, 1, 1];
    let bids = bid_qty.iter().enumerate().map(|(i, q)| (1000 - i as u64, *q)).collect();
    let asks = ask_qty.iter().enumerate().map(|(i, q)| (1001 + i as u64, *q)).collect();
    (bids, asks)
}

#[test]
fn test_depth_consistency() {
    let mut metrics = OrderbookMetrics::new();
    let (bids, asks) = depth_levels();
    let imbalances = metrics.calculate_multi_level_imbalance(&bids, &asks, &vec![5, 10, 20]);
    assert_eq!(imbalances, vec![(5, 500_000), (10, 520_000), (20, 480_000)]);
    let consistency = metrics.depth_consistency();
    assert!(consistency > 800_000);
    assert_eq!(consistency, 967_869);
}

#[test]
fn dispersed_imbalances_are_inconsistent() {
    let mut metrics = OrderbookMetrics::new();
    let bids = vec![(100, 19), (99, 1)];
    let asks = vec![(101, 1), (102, 379)];
    let imbalances = metrics.calculate_multi_level_imbalance(&bids, &asks, &vec![1, 2]);
    assert_eq!(imbalances, vec![(1, 900_000), (2, -900_000)]);
    let consistency = metrics.depth_consistency();
    assert_eq!(consistency, 171_544);
    assert!(consistency < 200_000);
}

#[test]
fn consistency_needs_two_depths() {
    let mut metrics = OrderbookMetrics::new();
    assert_eq!(metrics.depth_consistency(), 0);
    metrics.calculate_multi_level_imbalance(&vec![(1, 5)], &vec![(2, 5)], &vec![3, 3]);
    assert_eq!(metrics.depth_consistency(), 0);
    metrics.calculate_multi_level_imbalance(&vec![(1, 5)], &vec![(2, 5)], &vec![1, 2]);
    assert_eq!(metrics.depth_consistency(), 1_000_000);
}

#[test]
fn whale_found_with_its_multiplier() {
    let mut metrics = OrderbookMetrics::new();
    metrics.update_avg_order_size(&vec![(1, 10), (2, 10), (3, 10)]);
    let whales = metrics.detect_whales_at(&vec![(500000, 50), (499990, 10)], &vec![(500010, 30)], 3_000_000, 1_000);
    assert_eq!(whales.len(), 1);
    assert_eq!(whales[0].side, OrderSide::Bid);
    assert_eq!(whales[0].price, 500000);
    assert_eq!(whales[0].size, 50);
    assert_eq!(whales[0].size_multiplier, 5_000_000);
    assert_eq!(whales[0].timestamp_ms, 1_000);
}

#[test]
fn whales_on_both_sides_bids_first() {
    let mut metrics = OrderbookMetrics::new();
    metrics.update_avg_order_size(&vec![(1, 10)]);
    let whales = metrics.detect_whales_at(&vec![(10, 40)], &vec![(11, 31), (12, 30)], 3_000_000, 5);
    assert_eq!(whales.len(), 2);
    assert_eq!(whales[0].side, OrderSide::Bid);
    assert_eq!(whales[1].side, OrderSide::Ask);
    assert_eq!(whales[1].size_multiplier, 3_100_000);
}

#[test]
fn average_is_replaced_not_merged() {
    let mut metrics = OrderbookMetrics::new();
    metrics.update_avg_order_size(&vec![(1, 10), (2, 10)]);
    metrics.update_avg_order_size(&vec![(3, 10), (4, 50)]);
    // The average is now 30, so 50 is not above 3 times it.
    let whales = metrics.detect_whales(&vec![(1, 10), (2, 10)], &vec![(3, 10), (4, 50)], 3_000_000);
    assert!(whales.is_empty());
    metrics.update_avg_order_size(&vec![]);
    let whales = metrics.detect_whales(&vec![(5, 91)], &vec![], 3_000_000);
    assert_eq!(whales.len(), 1);
}

#[test]
fn no_whales_without_an_average() {
    let mut metrics = OrderbookMetrics::new();
    let whales = metrics.detect_whales(&vec![(1, 1000)], &vec![], 3_000_000);
    assert!(whales.is_empty());
}

#[test]
fn whale_score_decays_with_age() {
    let mut metrics = OrderbookMetrics::new();
    metrics.update_avg_order_size(&vec![(1, 10), (2, 10), (3, 10)]);
    metrics.detect_whales_at(&vec![(500000, 50)], &vec![], 3_000_000, 1_000);
    // Multiplier 5: ten points per unit above 3, full weight when fresh.
    assert_eq!(metrics.whale_score_at(10_000, 1_000), 20_000_000);
    assert_eq!(metrics.whale_score_at(10_000, 6_000), 10_000_000);
    assert_eq!(metrics.whale_score_at(10_000, 12_000), 0);
    assert_eq!(metrics.whale_score_at(0, 1_000), 0);
}

#[test]
fn whale_score_is_capped() {
    let mut metrics = OrderbookMetrics::new();
    metrics.update_avg_order_size(&vec![(1, 1)]);
    metrics.detect_whales_at(&vec![(1, 100)], &vec![], 3_000_000, 1_000);
    assert_eq!(metrics.whale_score_at(10_000, 1_000), 100_000_000);
}

#[test]
fn volume_delta_over_window() {
    let mut metrics = OrderbookMetrics::new();
    assert_eq!(metrics.calculate_volume_delta_at(5_000, 3_000), 0);
    metrics.add_snapshot_at(100, 80, 1_000);
    metrics.add_snapshot_at(120, 90, 3_000);
    // (210 - 180) lots over 2 s = 15 lots per second.
    assert_eq!(metrics.calculate_volume_delta_at(5_000, 3_000), 15_000_000);
    assert_eq!(metrics.calculate_side_volume_deltas_at(5_000, 3_000), (10_000_000, 5_000_000));
    // A window that holds only the newest snapshot measures no time.
    assert_eq!(metrics.calculate_volume_delta_at(1_000, 3_000), 0);
    assert_eq!(metrics.get_volume_deltas_at(&vec![5_000, 1_000], 3_000), vec![(5_000, 15_000_000), (1_000, 0)]);
}

#[test]
fn volume_delta_falls_back_to_oldest() {
    let mut metrics = OrderbookMetrics::new();
    metrics.add_snapshot_at(100, 100, 1_000);
    metrics.add_snapshot_at(50, 50, 2_000);
    // No snapshot lies in the last 10 ms, so the oldest one opens the window.
    assert_eq!(metrics.calculate_volume_delta_at(10, 9_000), -100_000_000);
}

#[test]
fn volume_history_is_bounded() {
    let mut metrics = OrderbookMetrics::new();
    for i in 0..70u64 {
        metrics.add_snapshot_at(i, i, 1_000 * (i + 1));
    }
    assert_eq!(metrics.volume_history_len(), 60);
    // The oldest kept snapshot is the eleventh: (69 - 10) * 2 lots over 59 s.
    assert_eq!(metrics.calculate_volume_delta_at(100_000, 70_000), 2_000_000);
}

#[test]
fn pressure_tracks_best_price_velocity() {
    let mut metrics = OrderbookMetrics::new();
    assert_eq!(metrics.calculate_pressure_at(500000, 500010, 1_000), (0, 0));
    assert_eq!(metrics.pressure_score(), 0);
    let (bid_p, ask_p) = metrics.calculate_pressure_at(500020, 500000, 3_000);
    assert_eq!((bid_p, ask_p), (10_000_000, -5_000_000));
    assert_eq!(metrics.pressure_score(), 100_000_000);
    // No time has passed: the last velocities stand.
    assert_eq!(metrics.calculate_pressure_at(1, 1, 3_000), (10_000_000, -5_000_000));
    let (bid_p, ask_p) = metrics.calculate_pressure_at(500020, 500000, 1_003_000);
    assert_eq!((bid_p, ask_p), (0, 0));
}

#[test]
fn pressure_score_small_difference() {
    let mut metrics = OrderbookMetrics::new();
    metrics.calculate_pressure_at(100, 100, 1_000);
    // One tick up over 1000 s: 0.001 ticks per second, times 100 = 0.1 points.
    metrics.calculate_pressure_at(101, 100, 1_001_000);
    assert_eq!(metrics.pressure_score(), 100_000);
}

#[test]
fn test_whale_detection() {
    let mut metrics = OrderbookMetrics::new();
    let bid_levels = vec![(500000, 10), (499990, 10)];
    let ask_levels = vec![(500010, 10), (500020, 50)];
    metrics.update_avg_order_size(&bid_levels);
    metrics.update_avg_order_size(&ask_levels);
    // The second call replaces the average: 3.0, so the threshold is 9.0 and 5.0 is no whale.
    let whales = metrics.detect_whales(&bid_levels, &ask_levels, 3_000_000);
    assert!(whales.is_empty());
}
