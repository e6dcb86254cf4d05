use event_trading::config::{ExchangeConfig, ExchangeType, RiskProfile};
use event_trading::error::TradingError;
use event_trading::money::Money;
use event_trading::portfolio::{Portfolio, Position, PositionSide};
use event_trading::risk::{PortfolioLimits, PositionSizer, RiskEngine, StopLossManager};

fn d(s: &str) -> Money {
    Money::parse(s).unwrap()
}

#[test]
fn test_portfolio_limits_creation() {
    let limits = PortfolioLimits::new(Money::from_int(1000), Money::from_int(5000), Money::from_int(2), 10);
    assert!(limits.is_ok());
}

#[test]
fn test_portfolio_limits_invalid_daily_loss() {
    let limits = PortfolioLimits::new(Money::from_int(-1000), Money::from_int(5000), Money::from_int(2), 10);
    assert!(limits.is_err());
}

#[test]
fn limits_checks() {
    assert!(PortfolioLimits::new(d("1"), d("0"), d("2"), 1).is_err());
    assert!(PortfolioLimits::new(d("1"), d("1"), d("0.99"), 1).is_err());
    assert!(PortfolioLimits::new(d("1"), d("1"), d("1"), 0).is_err());
    let l = PortfolioLimits::new(d("1000"), d("200"), d("1.5"), 5).unwrap();
    assert_eq!(l.is_daily_loss_exceeded(d("1000.01")).unwrap(), true);
    assert_eq!(l.is_daily_loss_exceeded(d("1000")).unwrap(), false);
    assert!(matches!(l.is_daily_loss_exceeded(d("-1")), Err(TradingError::Validation(_))));
    assert_eq!(l.is_position_too_large(d("200")).unwrap(), false);
    assert!(l.is_position_too_large(d("0")).is_err());
    assert_eq!(l.is_leverage_exceeded(d("1.6")).unwrap(), true);
    assert!(l.is_leverage_exceeded(d("0")).is_err());
    assert_eq!(l.can_open_new_position(4).unwrap(), true);
    assert_eq!(l.can_open_new_position(5).unwrap(), false);
}

#[test]
fn limits_from_balanced_profile() {
    let l = PortfolioLimits::from_risk_params(d("10000"), RiskProfile::Balanced.params()).unwrap();
    assert!(l.max_daily_loss.eq_value(&d("1000")));
    assert!(l.max_position_size.eq_value(&d("200")));
    assert!(l.max_leverage.eq_value(&d("1.5")));
    assert_eq!(l.max_open_positions, 5);
    assert!(PortfolioLimits::from_risk_params(d("0"), RiskProfile::Balanced.params()).is_err());
}

#[test]
fn profile_descriptions_and_params() {
    assert_eq!(RiskProfile::Conservative.params().max_open_positions, 3);
    assert!(RiskProfile::Aggressive.params().max_leverage.eq_value(&d("2")));
    assert_eq!(
        RiskProfile::Balanced.description(),
        "Balanced (2% per trade, 10% daily limit, 1.5x leverage)"
    );
    assert_eq!(ExchangeType::Bybit.description(), "Bybit - Crypto derivatives & spot");
    assert_eq!(ExchangeType::Binance.exchange_name(), "Binance");
    let cfg = ExchangeConfig { exchange_type: ExchangeType::Binance, api_key: None, api_secret: None, enabled: true };
    assert!(cfg.validate().is_ok());
    assert!(matches!(cfg.validate_for_trading(), Err(TradingError::Config(_))));
}

#[test]
fn position_sizing() {
    let size = PositionSizer::calculate(d("10000"), d("2"), d("50")).unwrap();
    assert_eq!(size.to_string(), "4.00000000");
    let size = PositionSizer::calculate(d("10000"), d("2"), d("3")).unwrap();
    assert_eq!(size.to_string(), "66.66666667");
    assert!(matches!(PositionSizer::calculate(d("0"), d("2"), d("50")), Err(TradingError::Validation(_))));
    assert!(matches!(PositionSizer::calculate(d("1"), d("100.1"), d("50")), Err(TradingError::Validation(_))));
    assert!(matches!(PositionSizer::calculate(d("1"), d("2"), d("0")), Err(TradingError::Validation(_))));
    let cap = PositionSizer::max_position_size(d("10000"), d("2.5")).unwrap();
    assert!(cap.eq_value(&d("250")));
}

#[test]
fn stop_loss_long() {
    let stop = StopLossManager::calculate_stop_loss(d("100"), d("2"), true).unwrap();
    assert!(stop.eq_value(&d("98")));
    assert_eq!(StopLossManager::is_stop_hit(d("98.00"), d("98"), true).unwrap(), true);
    assert_eq!(StopLossManager::is_stop_hit(d("98.01"), d("98"), true).unwrap(), false);
}

#[test]
fn stop_loss_short_and_invalid() {
    let stop = StopLossManager::calculate_stop_loss(d("100"), d("2"), false).unwrap();
    assert!(stop.eq_value(&d("102")));
    assert_eq!(StopLossManager::is_stop_hit(d("102"), d("102"), false).unwrap(), true);
    assert!(StopLossManager::calculate_stop_loss(d("100"), d("100"), true).is_err());
    assert!(StopLossManager::is_stop_hit(d("0"), d("1"), true).is_err());
    let pnl = StopLossManager::calculate_pnl(d("100"), d("90"), d("3"), false).unwrap();
    assert!(pnl.eq_value(&d("30")));
    let pnl = StopLossManager::calculate_pnl(d("100"), d("90.123456789"), d("1"), true).unwrap();
    assert_eq!(pnl.to_string(), "-9.87654321");
}

#[test]
fn position_notional_and_pnl() {
    let mut p = Position::new("BTC".to_string(), PositionSide::Long, d("100.5"), d("0.3"), d("90"), 1).unwrap();
    assert_eq!(p.notional_value().to_string(), "30.15");
    assert!(p.unrealized_pnl().is_zero());
    p.update_price(d("110.5")).unwrap();
    assert!(p.unrealized_pnl().eq_value(&d("3")));
    assert!(p.update_price(d("0")).is_err());
    assert!(p.last_price.eq_value(&d("110.5")));
    assert!(Position::new("X".to_string(), PositionSide::Short, d("0"), d("1"), d("1"), 0).is_err());
}

#[test]
fn portfolio_one_position_per_symbol() {
    let mut pf = Portfolio::new();
    pf.open_position("BTC".to_string(), PositionSide::Long, d("100"), d("2"), d("90"), 0).unwrap();
    let again = pf.open_position("BTC".to_string(), PositionSide::Long, d("100"), d("2"), d("90"), 0);
    assert!(matches!(again, Err(TradingError::Risk(_))));
    pf.open_position("ETH".to_string(), PositionSide::Short, d("10"), d("5"), d("12"), 0).unwrap();
    assert_eq!(pf.open_positions(), 2);
    assert!(pf.exposure().unwrap().eq_value(&d("250")));
    pf.update_price("ETH", d("9")).unwrap();
    assert!(pf.unrealized_pnl().unwrap().eq_value(&d("5")));
    let pnl = pf.close_position("BTC", d("100")).unwrap();
    assert!(pnl.is_zero());
    assert!(pf.realized_pnl().is_zero());
    assert!(matches!(pf.close_position("BTC", d("1")), Err(TradingError::Risk(_))));
    let closed = pf.close_all_at_last().unwrap();
    assert_eq!(closed.len(), 1);
    assert_eq!(closed[0].0, "ETH");
    assert!(closed[0].2.eq_value(&d("5")));
    assert!(pf.realized_pnl().eq_value(&d("5")));
    assert_eq!(pf.open_positions(), 0);
}

#[test]
fn exposure_grows_with_opens() {
    let mut pf = Portfolio::new();
    let mut last = pf.exposure().unwrap();
    for (i, sym) in ["A", "B", "C"].iter().enumerate() {
        pf.open_position(sym.to_string(), PositionSide::Long, d("10"), Money::from_int(i as i64 + 1), d("1"), 0)
            .unwrap();
        let now = pf.exposure().unwrap();
        assert_eq!(now.compare(&last), 1);
        last = now;
    }
}

#[test]
fn reconcile_reports_breaks() {
    let mut pf = Portfolio::new();
    pf.open_position("BTC".to_string(), PositionSide::Long, d("100"), d("2"), d("90"), 0).unwrap();
    pf.open_position("ETH".to_string(), PositionSide::Long, d("10"), d("1"), d("9"), 0).unwrap();
    let ext = vec![
        ("BTC".to_string(), d("2.00005")),
        ("SOL".to_string(), d("3")),
        ("XRP".to_string(), d("0")),
    ];
    let lines = pf.reconcile(&ext);
    assert_eq!(
        lines,
        vec![
            "Position break for ETH: internal=1, external=0".to_string(),
            "External position not in portfolio: SOL qty=3".to_string(),
        ]
    );
}

fn balanced_engine() -> RiskEngine {
    let limits = PortfolioLimits::from_risk_params(d("10000"), RiskProfile::Balanced.params()).unwrap();
    RiskEngine::new(d("10000"), limits).unwrap()
}

#[test]
fn daily_loss_trips_kill_switch() {
    let mut r = balanced_engine();
    r.record_trade_open("BTC".to_string(), PositionSide::Long, d("100"), d("30"), d("40"), 0).unwrap();
    r.update_price("BTC", d("50")).unwrap();
    assert!(r.equity().unwrap().eq_value(&d("8500")));
    assert!(r.daily_loss().eq_value(&d("1500")));
    let res = r.pre_trade_validate("ETH", PositionSide::Long, d("10"), d("1"), d("1"));
    match res {
        Err(TradingError::Risk(m)) => assert_eq!(m, "Daily loss limit exceeded"),
        _ => panic!("expected a risk error"),
    }
    assert!(r.is_kill_switch_active());
    assert_eq!(r.kill_switch_reason(), Some("Daily loss limit exceeded"));
}

#[test]
fn kill_switch_is_sticky() {
    let mut r = balanced_engine();
    r.activate_kill_switch("manual".to_string());
    r.activate_kill_switch("second".to_string());
    assert_eq!(r.kill_switch_reason(), Some("manual"));
    let open = r.record_trade_open("BTC".to_string(), PositionSide::Long, d("1"), d("1"), d("0.5"), 0);
    assert!(matches!(open, Err(TradingError::Risk(_))));
    assert!(matches!(
        r.pre_trade_validate("BTC", PositionSide::Long, d("1"), d("1"), d("1")),
        Err(TradingError::Risk(_))
    ));
    assert_eq!(r.open_positions(), 0);
    r.deactivate_kill_switch();
    assert!(r.kill_switch_reason().is_none());
    assert!(r.record_trade_open("BTC".to_string(), PositionSide::Long, d("1"), d("1"), d("0.5"), 0).is_ok());
}

#[test]
fn pre_trade_checks_in_order() {
    let mut r = balanced_engine();
    assert!(matches!(
        r.pre_trade_validate("BTC", PositionSide::Long, d("0"), d("1"), d("1")),
        Err(TradingError::Validation(_))
    ));
    assert!(matches!(
        r.pre_trade_validate("BTC", PositionSide::Long, d("100"), d("3"), d("1")),
        Err(TradingError::Risk(_))
    ));
    assert!(!r.is_kill_switch_active());
    assert!(r.pre_trade_validate("BTC", PositionSide::Long, d("100"), d("2"), d("1")).is_ok());
    for s in ["A", "B", "C", "D", "E"] {
        r.record_trade_open(s.to_string(), PositionSide::Long, d("1"), d("1"), d("0.5"), 0).unwrap();
    }
    match r.pre_trade_validate("F", PositionSide::Long, d("1"), d("1"), d("1")) {
        Err(TradingError::Risk(m)) => assert_eq!(m, "Max open positions reached"),
        _ => panic!("expected a risk error"),
    }
    assert!(r.is_kill_switch_active());
}

#[test]
fn close_and_liquidate_move_balance() {
    let mut r = balanced_engine();
    r.record_trade_open("BTC".to_string(), PositionSide::Long, d("100"), d("1"), d("90"), 0).unwrap();
    r.record_trade_open("ETH".to_string(), PositionSide::Short, d("10"), d("2"), d("12"), 0).unwrap();
    let pnl = r.record_trade_close("BTC", d("100")).unwrap();
    assert!(pnl.is_zero());
    assert!(r.account_balance().eq_value(&d("10000")));
    r.update_price("ETH", d("8")).unwrap();
    let out = r.liquidate_all().unwrap();
    assert_eq!(out.len(), 1);
    assert!(out[0].1.eq_value(&d("8")));
    assert!(r.account_balance().eq_value(&d("10004")));
    assert!(r.peak_equity().eq_value(&d("10004")));
    assert_eq!(r.open_positions(), 0);
}

#[test]
fn venue_labels() {
    assert_eq!(event_trading::config::exchange_name(&ExchangeType::Binance), "Binance (Crypto Spot)");
    assert_eq!(
        event_trading::config::exchange_name(&ExchangeType::Bybit),
        "Bybit (Crypto Derivatives & Spot)"
    );
}
