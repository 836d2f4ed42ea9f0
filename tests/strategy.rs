use orderflow_book::config::{default_delta_windows, default_depth_levels, default_min_depth_levels, default_sltp_order_type};
use orderflow_book::strategy::{MarketBias, TradingSide};

#[test]
fn bias_scores_and_sides() {
    assert_eq!(MarketBias::StrongLong.score(), 80);
    assert_eq!(MarketBias::WeakShort.score(), -40);
    assert_eq!(MarketBias::Neutral.score(), 0);
    assert_eq!(MarketBias::WeakLong.side(), Some(TradingSide::Buy));
    assert_eq!(MarketBias::StrongShort.side(), Some(TradingSide::Sell));
    assert_eq!(MarketBias::Neutral.side(), None);
}

#[test]
fn configuration_defaults() {
    assert_eq!(default_depth_levels(), vec![5, 10, 20]);
    assert_eq!(default_delta_windows(), vec![1000, 5000, 30000]);
    assert_eq!(default_min_depth_levels(), 5);
    assert_eq!(default_sltp_order_type(), "Market");
}

use orderflow_book::risk::VolatilityCalculator;
use orderflow_book::strategy::{ExitReason, PositionManager, SignalStrength, Strategy};

// Ratios in millionths; confidence, whale and pressure scores in millionths of a point.

fn strategy() -> Strategy {
    Strategy::new(20, 40_000_000, 1_000, 100, 1000)
}

#[test]
fn basic_analysis_scores_and_confidence() {
    let s = strategy();
    let signal = s.analyze(800_000, 500, 200, 100);
    assert_eq!(signal.bias, MarketBias::StrongLong);
    assert_eq!(signal.score, 80);
    assert_eq!(signal.confidence, 90_000_000);
    let signal = s.analyze(-400_000, 1_500, 40, 600);
    assert_eq!(signal.bias, MarketBias::WeakShort);
    assert_eq!(signal.score, -20);
    assert_eq!(signal.confidence, 37_000_000);
    assert_eq!(s.analyze(0, 0, 100, 0).bias, MarketBias::Neutral);
}

#[test]
fn enhanced_analysis_aligned_and_divergent() {
    let s = strategy();
    let signal = s.analyze_enhanced(500_000, 500, 200, 100, 1_000_000, 2_000_000, 50_000_000, 40_000_000, 800_000);
    assert_eq!(signal.score, 89);
    assert_eq!(signal.confidence, 73_500_000);
    assert_eq!(signal.momentum_score, 1_920_000);
    assert_eq!(Strategy::get_signal_strength(&signal), SignalStrength::Strong);
    assert!(s.should_trade(&signal, 0));
    let signal = s.analyze_enhanced(500_000, 500, 200, 100, 1_000_000, -2_000_000, 50_000_000, 40_000_000, 800_000);
    assert_eq!(signal.score, 14);
    assert_eq!(signal.momentum_score, -640_000);
    assert_eq!(Strategy::get_signal_strength(&signal), SignalStrength::NoSignal);
    assert!(!s.should_trade(&signal, 0));
}

#[test]
fn custom_weights_and_penalties() {
    let s = Strategy::with_weights(20, 0, 1_000, 100, 1000, 1_000_000, 0, 0, 0, 0);
    let signal = s.analyze_enhanced(600_000, 2_000, 10, 5_000, 0, 0, 0, 0, 0);
    // 60 imbalance points less 30 (spread), 20 (liquidity) and 20 (latency).
    assert_eq!(signal.score, -10);
}

#[test]
fn position_lifecycle() {
    let mut pm = PositionManager::new();
    assert!(!pm.has_position());
    assert!(pm.open_position_at(TradingSide::Buy, 1000, 5, 10_000, 20_000, 7));
    let pos = pm.get_position_details().unwrap();
    assert_eq!((pos.stop_loss, pos.take_profit, pos.opened_at), (990, 1020, 7));
    assert_eq!(pm.check_exit(990), Some(ExitReason::StopLoss));
    assert_eq!(pm.check_exit(1020), Some(ExitReason::TakeProfit));
    assert_eq!(pm.check_exit(1000), None);
    assert_eq!(pm.get_pnl(1010), Some(1_000_000));
    pm.close_position();
    assert!(!pm.has_position());
    assert_eq!(pm.get_pnl(1010), None);

    assert!(pm.open_position(TradingSide::Sell, 1000, 5, 10_000, 20_000));
    let pos = pm.get_position_details().unwrap();
    assert_eq!((pos.stop_loss, pos.take_profit), (1010, 980));
    assert_eq!(pm.check_exit(1010), Some(ExitReason::StopLoss));
    assert_eq!(pm.check_exit(980), Some(ExitReason::TakeProfit));
    assert_eq!(pm.get_pnl(990), Some(1_000_000));
    assert!(!pm.open_position_at(TradingSide::Buy, 1000, 5, 2_000_000, 20_000, 8));
    assert_eq!(pm.get_position_details().unwrap().side, TradingSide::Sell);
}

#[test]
fn dynamic_position_takes_risk_prices() {
    let mut calc = VolatilityCalculator::new(3);
    calc.add_price_at(100, 110, 1);
    calc.add_price_at(120, 130, 2);
    calc.add_price_at(100, 104, 3);
    calc.add_price_at(200, 210, 4);
    let mut pm = PositionManager::default();
    let params = pm.open_position_dynamic_at(TradingSide::Buy, 1000, 3, &calc, 10_000, 20_000, 500_000, 9).unwrap();
    let pos = pm.get_position_details().unwrap();
    assert_eq!((pos.stop_loss, pos.take_profit), (params.stop_loss_price, params.take_profit_price));
    assert_eq!((pos.stop_loss, pos.take_profit), (973, 1045));
}
