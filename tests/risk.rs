use orderflow_book::risk::{DynamicRiskParams, VolatilityCalculator, VolatilityRegime};
use orderflow_book::strategy::TradingSide;

// Prices are in ticks of 0.1; percentages and multipliers in millionths.

#[test]
fn test_atr_calculation() {
    let mut calc = VolatilityCalculator::new(3);
    calc.add_price(500000, 500100);
    calc.add_price(501000, 501100);
    calc.add_price(500500, 500600);
    calc.add_price(502000, 502100);
    let atr = calc.calculate_atr();
    assert!(atr > 0);
}

#[test]
fn test_dynamic_stop_loss() {
    let mut calc = VolatilityCalculator::new(3);
    calc.add_price(500000, 501000);
    calc.add_price(505000, 506000);
    calc.add_price(495000, 496000);
    calc.calculate_atr();
    let sl_pct = calc.suggest_stop_loss(10_000, 500_000, 500000, 5_000, 50_000);
    assert!(sl_pct > 10_000);
}

#[test]
fn test_volatility_regime() {
    let mut calc = VolatilityCalculator::new(3);
    calc.add_price(500000, 500100);
    calc.add_price(500050, 500150);
    calc.calculate_atr();
    let regime = calc.get_volatility_regime(500000);
    assert_eq!(regime, VolatilityRegime::Low);
}

#[test]
fn test_position_size_adjustment() {
    let mut calc = VolatilityCalculator::new(3);
    calc.add_price(500000, 500100);
    calc.add_price(500050, 500150);
    calc.calculate_atr();
    let multiplier = calc.position_size_multiplier(500000);
    assert!(multiplier > 1_000_000);
}

fn four_points() -> VolatilityCalculator {
    let mut calc = VolatilityCalculator::new(3);
    calc.add_price_at(100, 110, 1);
    calc.add_price_at(120, 130, 2);
    calc.add_price_at(100, 104, 3);
    calc.add_price_at(200, 210, 4);
    calc
}

#[test]
fn atr_is_smoothed_average_of_true_ranges() {
    let mut calc = VolatilityCalculator::new(3);
    calc.add_price_at(100, 110, 1);
    assert_eq!(calc.get_atr(), 0);
    calc.add_price_at(120, 130, 2);
    assert_eq!(calc.get_atr(), 25);
    calc.add_price_at(100, 104, 3);
    assert_eq!(calc.get_atr(), 25);
    calc.add_price_at(200, 210, 4);
    // True ranges 25, 25, 108: ATR 52; smoothed over 25, 25, 52.
    assert_eq!(calc.get_atr(), 34);
    calc.add_price_at(200, 210, 5);
    // Window of three: 25, 108, 10 gives 47; smoothed over 25, 52, 47.
    assert_eq!(calc.get_atr(), 41);
}

#[test]
fn atr_share_regime_and_adjustments() {
    let calc = four_points();
    assert_eq!(calc.get_atr_pct(1000), 34_000);
    assert_eq!(calc.get_atr_pct(0), 0);
    assert_eq!(calc.get_volatility_regime(1000), VolatilityRegime::High);
    assert_eq!(calc.get_volatility_regime(3400), VolatilityRegime::Medium);
    assert_eq!(calc.position_size_multiplier(1000), 500_000);
    assert_eq!(calc.suggest_stop_loss(10_000, 500_000, 1000, 5_000, 50_000), 27_000);
    assert_eq!(calc.suggest_stop_loss(10_000, 5_000_000, 1000, 5_000, 50_000), 50_000);
    assert_eq!(calc.suggest_take_profit(0, 0, 1000, 10_000, 100_000), 10_000);
}

#[test]
fn dynamic_risk_params_for_both_sides() {
    let calc = four_points();
    let buy = DynamicRiskParams::calculate(&calc, 1000, TradingSide::Buy, 10_000, 20_000, 500_000).unwrap();
    assert_eq!(buy.stop_loss_pct, 27_000);
    assert_eq!(buy.take_profit_pct, 45_500);
    assert_eq!(buy.stop_loss_price, 973);
    assert_eq!(buy.take_profit_price, 1045);
    assert_eq!(buy.position_size_multiplier, 500_000);
    assert_eq!(buy.atr_value, 34);
    assert_eq!(buy.volatility_regime, VolatilityRegime::High);
    let sell = DynamicRiskParams::calculate(&calc, 1000, TradingSide::Sell, 10_000, 20_000, 500_000).unwrap();
    assert_eq!(sell.stop_loss_price, 1027);
    assert_eq!(sell.take_profit_price, 954);
    assert!(DynamicRiskParams::calculate(&calc, u64::MAX, TradingSide::Buy, 10_000, 20_000, 500_000).is_none());
}
