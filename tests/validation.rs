use orderflow_book::orderbook::manager::Orderbook;
use orderflow_book::orderbook::validation::{OrderbookValidator, ValidationConfig, ValidationResult};

fn create_test_orderbook() -> Orderbook {
    let mut ob = Orderbook::new("BTCUSDT".to_string());
    let bids = vec![(500000, 10), (499990, 10), (499980, 10), (499970, 10), (499960, 10)];
    let asks = vec![(500010, 10), (500020, 10), (500030, 10), (500040, 10), (500050, 10)];
    ob.apply_snapshot(bids, asks);
    ob
}

fn book_at(bids: Vec<(u64, u32)>, asks: Vec<(u64, u32)>, now: u64) -> Orderbook {
    let mut ob = Orderbook::new("BTCUSDT".to_string());
    ob.apply_snapshot_at(bids, asks, now);
    ob
}

fn five_levels(best_bid: u64, best_ask: u64, qty: u32) -> (Vec<(u64, u32)>, Vec<(u64, u32)>) {
    let bids = (0..5u64).map(|i| (best_bid - 10 * i, qty)).collect();
    let asks = (0..5u64).map(|i| (best_ask + 10 * i, qty)).collect();
    (bids, asks)
}

#[test]
fn test_valid_orderbook() {
    let mut validator = OrderbookValidator::new(ValidationConfig::default());
    let ob = create_test_orderbook();
    let result = validator.validate(&ob);
    assert_eq!(result, ValidationResult::Valid);
}

#[test]
fn test_crossed_book() {
    let mut validator = OrderbookValidator::new(ValidationConfig::default());
    let mut ob = Orderbook::new("BTCUSDT".to_string());
    ob.apply_snapshot(vec![(500020, 10)], vec![(500010, 10)]);
    let result = validator.validate(&ob);
    assert_eq!(result, ValidationResult::PriceAnomaly);
}

#[test]
fn test_insufficient_depth() {
    let mut validator = OrderbookValidator::new(ValidationConfig::default());
    let mut ob = Orderbook::new("BTCUSDT".to_string());
    ob.apply_snapshot(vec![(500000, 10), (499990, 10)], vec![(500010, 10), (500020, 10)]);
    let result = validator.validate(&ob);
    assert_eq!(result, ValidationResult::InsufficientDepth);
}

#[test]
fn uninitialised_book_is_insufficient() {
    let mut validator = OrderbookValidator::new(ValidationConfig::default());
    let ob = Orderbook::new("BTCUSDT".to_string());
    assert_eq!(validator.validate(&ob), ValidationResult::InsufficientDepth);
    let ob = book_at(vec![], vec![(500010, 1)], 0);
    assert_eq!(validator.validate_at(&ob, 0), ValidationResult::InsufficientDepth);
}

#[test]
fn stale_book() {
    let mut validator = OrderbookValidator::new(ValidationConfig::default());
    let (bids, asks) = five_levels(500000, 500010, 10);
    let ob = book_at(bids, asks, 1_000);
    assert_eq!(validator.validate_at(&ob, 6_000), ValidationResult::Valid);
    assert_eq!(validator.validate_at(&ob, 6_001), ValidationResult::StaleData);
    assert!(!ValidationResult::StaleData.is_valid());
}

#[test]
fn thin_book_outranks_stale_data() {
    let mut validator = OrderbookValidator::new(ValidationConfig::default());
    let ob = book_at(vec![(500000, 1)], vec![(500010, 1)], 0);
    assert_eq!(validator.validate_at(&ob, 1_000_000), ValidationResult::InsufficientDepth);
}

#[test]
fn calibration_then_wide_spread_and_low_liquidity() {
    let mut validator = OrderbookValidator::new(ValidationConfig::default());
    let (bids, asks) = five_levels(500000, 500010, 10);
    let normal = book_at(bids, asks, 0);
    for _ in 0..9 {
        assert_eq!(validator.validate_at(&normal, 0), ValidationResult::Valid);
    }
    assert!(!validator.is_calibrated());
    assert_eq!(validator.validate_at(&normal, 0), ValidationResult::Valid);
    assert!(validator.is_calibrated());
    let ((spread_lo, spread_hi), (liq_lo, liq_hi)) = validator.get_normal_ranges();
    assert_eq!((spread_lo, spread_hi), (19, 19));
    assert_eq!((liq_lo, liq_hi), (100, 100));

    // Spread 2 * 100 / 1000100 = 199 millionths, above three times 19.
    let (bids, asks) = five_levels(500000, 500100, 10);
    let wide = book_at(bids, asks, 0);
    assert_eq!(validator.validate_at(&wide, 0), ValidationResult::WideSpread);

    // Liquidity 20 lots, below a quarter of 100.
    let (bids, asks) = five_levels(500000, 500010, 2);
    let thin = book_at(bids, asks, 0);
    assert_eq!(validator.validate_at(&thin, 0), ValidationResult::LowLiquidity);

    // Neither outcome entered the baseline.
    assert_eq!(validator.get_normal_ranges(), ((19, 19), (100, 100)));
}

#[test]
fn percentiles_follow_the_ring() {
    let mut validator = OrderbookValidator::new(ValidationConfig::default());
    for q in 1..=10u32 {
        let (bids, asks) = five_levels(500000, 500010, 10 * q);
        let ob = book_at(bids, asks, 0);
        assert_eq!(validator.validate_at(&ob, 0), ValidationResult::Valid);
    }
    // Liquidities 100, 200, ..., 1000: indices 1 and 9 of the sorted list.
    assert_eq!(validator.get_normal_ranges().1, (200, 1000));
}

#[test]
fn disabled_validator_passes_everything() {
    let mut config = ValidationConfig::default();
    config.enabled = false;
    let mut validator = OrderbookValidator::new(config);
    let ob = book_at(vec![(500020, 10)], vec![(500010, 10)], 0);
    assert_eq!(validator.validate_at(&ob, 0), ValidationResult::Valid);
    assert!(!validator.is_calibrated());
}

#[test]
fn result_names() {
    assert_eq!(ValidationResult::Valid.to_string(), "Valid");
    assert_eq!(ValidationResult::WideSpread.to_string(), "Wide Spread");
    assert_eq!(ValidationResult::LowLiquidity.to_string(), "Low Liquidity");
    assert_eq!(ValidationResult::StaleData.to_string(), "Stale Data");
    assert_eq!(ValidationResult::PriceAnomaly.to_string(), "Price Anomaly");
    assert_eq!(ValidationResult::InsufficientDepth.to_string(), "Insufficient Depth");
    assert!(ValidationResult::Valid.is_valid());
    assert!(!ValidationResult::PriceAnomaly.is_valid());
}

#[test]
fn test_normal_range_calculation() {
    let mut validator = OrderbookValidator::new(ValidationConfig::default());
    let ob = create_test_orderbook();
    for _ in 0..20 {
        validator.validate(&ob);
    }
    assert!(validator.is_calibrated());
    let (spread_range, liquidity_range) = validator.get_normal_ranges();
    // Twenty equal measurements: both percentiles are that measurement.
    assert!(spread_range.0 > 0);
    assert_eq!(spread_range.1, spread_range.0);
    assert!(liquidity_range.0 > 0);
    assert_eq!(liquidity_range.1, liquidity_range.0);
}
