use event_trading::config::{RiskProfile, StrategyConfig, StrategyType};
use event_trading::error::TradingError;
use event_trading::market::PriceEvent;
use event_trading::money::Money;
use event_trading::strategy::{MeanReversionStrategy, Signal, StrategyFactory};

fn d(s: &str) -> Money {
    Money::parse(s).unwrap()
}

fn price(p: &str) -> PriceEvent {
    PriceEvent::at("BTCUSDT".to_string(), d(p), d("1"), 0)
}

#[test]
fn test_mean_reversion_creation() {
    let strategy = MeanReversionStrategy::new(Money::new(2, 2), 10, Money::from_int(2));
    assert!(strategy.is_ok());
}

#[test]
fn test_invalid_threshold() {
    let strategy = MeanReversionStrategy::new(Money::from_int(2), 10, Money::from_int(2));
    assert!(strategy.is_err());
}

#[test]
fn creation_rejects_bad_window_and_risk() {
    assert!(matches!(
        MeanReversionStrategy::new(d("0.02"), 0, d("2")),
        Err(TradingError::Validation(_))
    ));
    assert!(matches!(
        MeanReversionStrategy::new(d("0.02"), 3, d("101")),
        Err(TradingError::Validation(_))
    ));
    assert!(MeanReversionStrategy::new(d("0.02"), 3, d("100")).is_ok());
}

fn seeded(window: &[&str]) -> MeanReversionStrategy {
    let mut s = MeanReversionStrategy::new(d("0.02"), window.len(), d("2")).unwrap();
    for p in window {
        s.push_price(d(p)).unwrap();
    }
    s
}

#[test]
fn buy_below_mean() {
    let s = seeded(&["100", "100", "100"]);
    assert_eq!(s.signal(&price("97")).unwrap(), Signal::Buy);
}

#[test]
fn sell_above_mean_and_hold_near() {
    let s = seeded(&["100", "100", "100"]);
    assert_eq!(s.signal(&price("103")).unwrap(), Signal::Sell);
    assert_eq!(s.signal(&price("102")).unwrap(), Signal::Hold);
    assert_eq!(s.signal(&price("98")).unwrap(), Signal::Hold);
}

#[test]
fn hold_until_window_full() {
    let s = seeded(&["100", "100"]);
    let mut t = MeanReversionStrategy::new(d("0.02"), 3, d("2")).unwrap();
    t.push_price(d("100")).unwrap();
    assert_eq!(t.signal(&price("1")).unwrap(), Signal::Hold);
    assert_eq!(s.window_len(), 2);
}

#[test]
fn flat_window_holds_on_same_price() {
    let s = seeded(&["250.5", "250.5", "250.5", "250.5"]);
    assert_eq!(s.signal(&price("250.5")).unwrap(), Signal::Hold);
}

#[test]
fn window_drops_oldest() {
    let mut s = MeanReversionStrategy::new(d("0.02"), 2, d("2")).unwrap();
    s.push_price(d("1")).unwrap();
    s.push_price(d("100")).unwrap();
    s.push_price(d("100")).unwrap();
    assert_eq!(s.window_len(), 2);
    assert_eq!(s.signal(&price("100")).unwrap(), Signal::Hold);
    assert!(matches!(s.push_price(d("0")), Err(TradingError::Validation(_))));
}

#[test]
fn risk_params_two_percent_stop() {
    let s = seeded(&["1"]);
    let (entry, dist, hint) = s.get_risk_params(d("50000")).unwrap();
    assert!(entry.eq_value(&d("50000")));
    assert!(dist.eq_value(&d("1000")));
    assert!(hint.eq_value(&d("50000")));
    assert_eq!(s.name(), "MeanReversion");
}

#[test]
fn factory_builds_mean_reversion_only() {
    let cfg = StrategyConfig {
        strategy_type: StrategyType::MeanReversion { threshold: d("0.02"), window_size: 10 },
        symbol: "BTCUSDT".to_string(),
        risk_profile: RiskProfile::Balanced,
        enabled: true,
    };
    assert!(cfg.validate().is_ok());
    assert!(StrategyFactory::create_strategy(&cfg).is_ok());
    let ma = StrategyConfig {
        strategy_type: StrategyType::MovingAverage { short_window: 5, long_window: 20 },
        symbol: "BTCUSDT".to_string(),
        risk_profile: RiskProfile::Balanced,
        enabled: true,
    };
    assert!(ma.validate().is_ok());
    assert!(matches!(StrategyFactory::create_strategy(&ma), Err(TradingError::Validation(_))));
    let bad = StrategyConfig {
        strategy_type: StrategyType::MovingAverage { short_window: 20, long_window: 5 },
        symbol: "".to_string(),
        risk_profile: RiskProfile::Balanced,
        enabled: true,
    };
    assert!(bad.validate().is_err());
}
