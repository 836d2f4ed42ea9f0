use orderflow_book::bybit::websocket::topic_matches;
use orderflow_book::monitor::{order_lots, CycleInput, MonitorState};
use orderflow_book::strategy::{ExitReason, TradingSide};
use orderflow_book::telegram::startup_notification_due;

#[test]
fn topics_match_by_prefix() {
    assert!(topic_matches("orderbook.50.BTCUSDT", "orderbook.50."));
    assert!(topic_matches("orderbook.50.BTCUSDT", "orderbook.50.BTCUSDT"));
    assert!(!topic_matches("orderbook.1.BTCUSDT", "orderbook.50."));
    assert!(!topic_matches("orderbook", "orderbook.50."));
    assert!(topic_matches("trade", ""));
}

#[test]
fn startup_cooldown() {
    assert!(startup_notification_due(1_000, 0));
    assert!(startup_notification_due(600, 0));
    assert!(!startup_notification_due(599, 0));
    assert!(!startup_notification_due(5, 10));
}

fn input(has_position: bool, should_trade: bool, side: Option<TradingSide>, exit: Option<ExitReason>) -> CycleInput {
    CycleInput { has_position, should_trade, side, exit, keep_software_monitoring: true }
}

#[test]
fn cycle_opens_then_waits_out_cooldown() {
    let mut state = MonitorState::new();
    let plan = state.plan_cycle(input(false, true, Some(TradingSide::Buy), None));
    assert_eq!(plan.open, Some(TradingSide::Buy));
    state.order_placed(2);
    let plan = state.plan_cycle(input(false, true, Some(TradingSide::Sell), None));
    assert_eq!(plan.open, None);
    let plan = state.plan_cycle(input(false, true, Some(TradingSide::Sell), None));
    assert_eq!(plan.open, Some(TradingSide::Sell));
    let plan = state.plan_cycle(input(false, true, None, None));
    assert_eq!(plan.open, None);
    let plan = state.plan_cycle(input(false, false, Some(TradingSide::Buy), None));
    assert_eq!(plan.open, None);
}

#[test]
fn cycle_closes_monitored_position() {
    let mut state = MonitorState::new();
    let plan = state.plan_cycle(input(true, true, Some(TradingSide::Buy), Some(ExitReason::StopLoss)));
    assert_eq!(plan.open, None);
    assert_eq!(plan.close, Some(ExitReason::StopLoss));
    let mut unmonitored = input(true, false, None, Some(ExitReason::TakeProfit));
    unmonitored.keep_software_monitoring = false;
    assert_eq!(state.plan_cycle(unmonitored).close, None);
}

#[test]
fn summary_every_sixty_cycles() {
    let mut state = MonitorState::new();
    for _ in 0..59 {
        assert!(!state.plan_cycle(input(false, false, None, None)).send_summary);
    }
    assert!(state.plan_cycle(input(false, false, None, None)).send_summary);
    assert_eq!(state.summary_counter, 0);
}

#[test]
fn order_size_rounds_scales_and_clamps() {
    assert_eq!(order_lots(10_000, 3_000, 1_500_000, 1, 1_000), 4);
    assert_eq!(order_lots(10_000, 3_000, 1_000_000, 1, 1_000), 3);
    assert_eq!(order_lots(10_000, 3_000, 500_000, 2, 1_000), 2);
    assert_eq!(order_lots(10_000_000, 3, 1_000_000, 1, 1_000), 1_000);
}
