use event_trading::bus::EventBus;
use event_trading::config::RiskProfile;
use event_trading::error::TradingError;
use event_trading::event::Event;
use event_trading::execution::{ExecutionEngine, FillSimulator, OrderSide, OrderStatus, OrderType, TimeInForce};
use event_trading::money::Money;
use event_trading::risk::PortfolioLimits;
use event_trading::strategy::Signal;

fn d(s: &str) -> Money {
    Money::parse(s).unwrap()
}

fn engine() -> ExecutionEngine {
    let limits = PortfolioLimits::from_risk_params(d("10000"), RiskProfile::Balanced.params()).unwrap();
    ExecutionEngine::new(d("10000"), limits, EventBus::new()).unwrap()
}

#[test]
fn fill_split() {
    let fills = FillSimulator::simulate(1, "BTC", d("100"), d("3")).unwrap();
    assert_eq!(fills.len(), 2);
    assert!(fills[0].quantity.eq_value(&d("1.5")));
    assert!(fills[1].quantity.eq_value(&d("1.5")));
    assert!(fills[0].fee.eq_value(&d("0.075")));
    assert!(fills[1].fee.eq_value(&d("0.075")));
    let one = FillSimulator::simulate(2, "BTC", d("100"), d("1")).unwrap();
    assert_eq!(one.len(), 1);
    assert!(one[0].quantity.eq_value(&d("1")));
    assert!(one[0].fee.eq_value(&d("0.05")));
    assert_eq!(one[0].order_id, 2);
}

#[test]
fn fill_split_conserves_odd_quantity() {
    let fills = FillSimulator::simulate(1, "BTC", d("10"), d("1.000000001")).unwrap();
    let total = fills[0].quantity.checked_add(&fills[1].quantity).unwrap();
    assert!(total.eq_value(&d("1.000000001")));
    assert_eq!(fills[0].quantity.to_string(), "0.50000000");
    assert!(FillSimulator::simulate(1, "BTC", d("10"), d("0")).unwrap().is_empty());
}

#[test]
fn hold_does_nothing() {
    let mut e = engine();
    assert!(e.execute("BTC".to_string(), Signal::Hold, d("100"), d("2")).unwrap().is_none());
    assert!(e.event_bus().events().is_empty());
    assert!(e.orders().is_empty());
}

#[test]
fn sell_signal_opens_short_trade() {
    let mut e = engine();
    let t = e.execute("BTC".to_string(), Signal::Sell, d("50"), d("50")).unwrap().unwrap();
    assert!(t.position_size.eq_value(&d("4")));
    assert!(t.stop_loss.eq_value(&d("100")));
    assert_eq!(e.open_positions(), 1);
    assert_eq!(e.orders().len(), 1);
    assert_eq!(e.orders()[0].status, OrderStatus::Filled);
    assert!(e.orders()[0].filled_quantity.eq_value(&d("4")));
    assert_eq!(e.fills().len(), 2);
    assert_eq!(e.trades().len(), 1);
    let tags: Vec<&str> = e.event_bus().events().iter().map(|ev| ev.event_type()).collect();
    assert_eq!(tags, vec!["OrderSubmitted", "OrderFilled", "OrderFilled", "TradeExecuted"]);
    assert_eq!(e.check_stop_loss(d("100"), &t).unwrap(), true);
    assert_eq!(e.check_stop_loss(d("99"), &t).unwrap(), false);
}

#[test]
fn daily_loss_halts_then_errors() {
    let mut e = engine();
    e.execute("BTC".to_string(), Signal::Sell, d("50"), d("50")).unwrap().unwrap();
    e.update_price("BTC", d("425")).unwrap();
    assert!(!e.is_kill_switch_active());
    let before = e.event_bus().events().len();
    let r = e.execute("ETH".to_string(), Signal::Sell, d("1"), d("1"));
    match r {
        Err(TradingError::Execution(m)) => {
            assert_eq!(m, "Risk management error: Daily loss limit exceeded")
        }
        _ => panic!("expected an execution error"),
    }
    assert!(e.is_kill_switch_active());
    let evs = e.event_bus().events();
    assert_eq!(evs.len(), before + 2);
    match &evs[before] {
        Event::RiskHalt { reason } => assert_eq!(reason, "Daily loss limit exceeded"),
        _ => panic!("expected RiskHalt"),
    }
    assert!(matches!(&evs[before + 1], Event::Error(_)));
}

#[test]
fn price_update_after_trip_liquidates() {
    let mut e = engine();
    e.execute("BTC".to_string(), Signal::Sell, d("50"), d("50")).unwrap().unwrap();
    e.update_price("BTC", d("425")).unwrap();
    let _ = e.execute("ETH".to_string(), Signal::Sell, d("1"), d("1"));
    assert!(e.is_kill_switch_active());
    let before = e.event_bus().events().len();
    e.update_price("BTC", d("425")).unwrap();
    assert_eq!(e.open_positions(), 0);
    assert!(e.balance().eq_value(&d("8500")));
    let evs = e.event_bus().events();
    assert_eq!(evs[before].event_type(), "RiskHalt");
    assert_eq!(evs[before + 1].event_type(), "TradeClosed");
}

#[test]
fn order_control() {
    let mut e = engine();
    let id = e.submit_order("BTC".to_string(), OrderSide::Buy, OrderType::Limit, TimeInForce::Gtc, d("2"), Some(d("10")))
        .unwrap();
    assert_eq!(id, 1);
    assert!(matches!(
        e.submit_order("BTC".to_string(), OrderSide::Buy, OrderType::Limit, TimeInForce::Day, d("0"), None),
        Err(TradingError::Validation(_))
    ));
    e.replace_order(id, d("3"), Some(d("11"))).unwrap();
    assert!(e.orders()[0].quantity.eq_value(&d("3")));
    assert!(matches!(e.replace_order(id, d("0"), None), Err(TradingError::Validation(_))));
    e.cancel_order(id).unwrap();
    assert_eq!(e.orders()[0].status, OrderStatus::Cancelled);
    assert!(matches!(e.cancel_order(id), Err(TradingError::Execution(_))));
    assert!(matches!(e.replace_order(id, d("1"), None), Err(TradingError::Execution(_))));
    assert!(matches!(e.cancel_order(9), Err(TradingError::Execution(_))));
    let tags: Vec<&str> = e.drain_events().iter().map(|ev| ev.event_type()).collect();
    assert_eq!(tags, vec!["OrderSubmitted", "OrderCancelled"]);
}

#[test]
fn fills_add_up_to_filled_quantity() {
    let mut e = engine();
    e.execute("BTC".to_string(), Signal::Sell, d("25"), d("30")).unwrap().unwrap();
    let order = &e.orders()[0];
    let mut total = Money::zero();
    for f in e.fills().iter().filter(|f| f.order_id == order.id) {
        total = total.checked_add(&f.quantity).unwrap();
    }
    assert!(total.eq_value(&order.filled_quantity));
    assert!(total.eq_value(&order.quantity));
    assert_eq!(order.status, OrderStatus::Filled);
    assert_eq!(order.quantity.to_string(), "6.66666667");
}

#[test]
fn tripped_switch_publishes_halt_then_error() {
    let mut e = engine();
    e.execute("BTC".to_string(), Signal::Sell, d("50"), d("50")).unwrap().unwrap();
    e.update_price("BTC", d("425")).unwrap();
    let _ = e.execute("ETH".to_string(), Signal::Sell, d("1"), d("1"));
    assert!(e.is_kill_switch_active());
    let orders_before = e.orders().len();
    let before = e.event_bus().events().len();
    let r = e.execute("ETH".to_string(), Signal::Buy, d("100"), d("2"));
    assert!(matches!(r, Err(TradingError::Execution(_))));
    let evs = e.event_bus().events();
    assert_eq!(evs.len(), before + 2);
    match &evs[before] {
        Event::RiskHalt { reason } => assert_eq!(reason, "Daily loss limit exceeded"),
        _ => panic!("expected RiskHalt"),
    }
    assert!(matches!(&evs[before + 1], Event::Error(_)));
    assert_eq!(e.orders().len(), orders_before);
}

#[test]
fn explicit_clock_reading() {
    let mut e = engine();
    let id = e
        .submit_order_at("BTC".to_string(), OrderSide::Sell, OrderType::Market, TimeInForce::Ioc, d("1"), None, 1234)
        .unwrap();
    assert_eq!(e.orders()[(id - 1) as usize].created_at, 1234);
    let t = e.execute_at("ETH".to_string(), Signal::Sell, d("50"), d("50"), Some(777)).unwrap().unwrap();
    assert_eq!(t.timestamp, 777);
    assert!(matches!(
        e.execute_at("SOL".to_string(), Signal::Sell, d("50"), d("50"), None),
        Err(TradingError::Time(_))
    ));
}
