use event_trading::bus::EventBus;
use event_trading::error::TradingError;
use event_trading::market::{
    binance_event, bybit_event, bybit_symbol, BinanceTickerResponse, BybitResponse, BybitResult,
    BybitTickerData, PriceEvent, PriceMonitor, PriceValidator,
};
use event_trading::money::Money;
use event_trading::resilient::{after_primary, after_secondary, resilient_exchange_name, Failover};

fn d(s: &str) -> Money {
    Money::parse(s).unwrap()
}

fn ev(sym: &str, price: &str, ts: u64) -> PriceEvent {
    PriceEvent::at(sym.to_string(), d(price), d("1"), ts)
}

#[test]
fn dedup_drop_keeps_state() {
    let mut m = PriceMonitor::new(60000);
    let first = m.process(ev("BTCUSDT", "50000", 1000)).unwrap();
    assert!(first.is_some());
    let second = m.process(ev("BTCUSDT", "50000", 1000)).unwrap();
    assert!(second.is_none());
    let (ts, p) = m.last_seen("BTCUSDT").unwrap();
    assert_eq!(ts, 1000);
    assert!(p.eq_value(&d("50000")));
}

#[test]
fn gap_rejection_keeps_state() {
    let mut m = PriceMonitor::new(60000);
    m.process(ev("BTCUSDT", "50000", 1000)).unwrap();
    let r = m.process(ev("BTCUSDT", "50100", 70000));
    match r {
        Err(TradingError::MarketData(msg)) => {
            assert_eq!(msg, "Price gap detected for BTCUSDT: 69000ms")
        }
        _ => panic!("expected a market-data error"),
    }
    let (ts, p) = m.last_seen("BTCUSDT").unwrap();
    assert_eq!(ts, 1000);
    assert!(p.eq_value(&d("50000")));
}

#[test]
fn monitor_accepts_new_price_within_threshold() {
    let mut m = PriceMonitor::new(60000);
    m.process(ev("BTCUSDT", "50000", 1000)).unwrap();
    assert!(m.process(ev("BTCUSDT", "50100", 2000)).unwrap().is_some());
    assert!(m.process(ev("ETHUSDT", "3000", 999999)).unwrap().is_some());
    assert_eq!(m.last_seen("BTCUSDT").unwrap().0, 2000);
    assert!(m.last_seen("SOLUSDT").is_none());
}

#[test]
fn dedup_law_on_values() {
    let mut m = PriceMonitor::new(10);
    let e = ev("ETHUSDT", "3000.5", 42);
    assert!(m.process(e.clone()).unwrap().is_some());
    assert!(m.process(e).unwrap().is_none());
}

#[test]
fn validator_rules() {
    assert!(PriceValidator::validate(&ev("BTC", "1", 0)).is_ok());
    assert!(matches!(PriceValidator::validate(&ev("BTC", "0", 0)), Err(TradingError::Validation(_))));
    let neg_vol = PriceEvent::at("BTC".to_string(), d("1"), d("-1"), 0);
    assert!(matches!(PriceValidator::validate(&neg_vol), Err(TradingError::Validation(_))));
    assert!(matches!(PriceValidator::validate(&ev("", "1", 0)), Err(TradingError::Validation(_))));
}

#[test]
fn normalize_rounds_price_only() {
    let e = PriceEvent::at("BTC".to_string(), d("1.123456789"), d("0.123456789"), 7);
    let n = PriceValidator::normalize(e).unwrap();
    assert_eq!(n.price.to_string(), "1.12345679");
    assert!(n.price.scale <= 8);
    assert_eq!(n.volume.to_string(), "0.123456789");
    assert_eq!(n.timestamp, 7);
}

#[test]
fn event_new_reads_the_clock() {
    let e = PriceEvent::new("BTC".to_string(), d("1"), d("1")).unwrap();
    assert!(e.timestamp > 1_600_000_000_000);
}

#[test]
fn bybit_symbol_suffix() {
    assert_eq!(bybit_symbol("BTC"), "BTCUSDT");
    assert_eq!(bybit_symbol("BTCUSDT"), "BTCUSDT");
}

#[test]
fn ticker_shapes_to_events() {
    let r = BinanceTickerResponse {
        symbol: "BTCUSDT".to_string(),
        last_price: "50000.01".to_string(),
        volume: "12.5".to_string(),
    };
    let e = binance_event(r, 5).unwrap();
    assert_eq!(e.symbol, "BTCUSDT");
    assert_eq!(e.price.to_string(), "50000.01");
    let bad = BinanceTickerResponse {
        symbol: "BTCUSDT".to_string(),
        last_price: "5e4".to_string(),
        volume: "1".to_string(),
    };
    assert!(matches!(binance_event(bad, 5), Err(TradingError::Decimal(_))));
    let empty: BybitResponse<BybitTickerData> = BybitResponse { result: BybitResult { list: vec![] } };
    assert!(matches!(bybit_event("BTC", empty, 5), Err(TradingError::MarketData(_))));
    let one = BybitResponse {
        result: BybitResult {
            list: vec![BybitTickerData {
                symbol: "BTCUSDT".to_string(),
                last_price: "101.5".to_string(),
                volume24h: "7".to_string(),
            }],
        },
    };
    let e = bybit_event("BTC", one, 9).unwrap();
    assert_eq!(e.symbol, "BTC");
    assert_eq!(e.volume.to_string(), "7");
}

#[test]
fn resilient_failover_publishes_primary_error() {
    let mut bus = EventBus::new();
    let primary: Result<PriceEvent, TradingError> = Err(TradingError::Network("connection refused".to_string()));
    let step = after_primary(primary, &mut bus);
    assert!(matches!(step, Failover::TrySecondary));
    let secondary = Ok(ev("BTCUSDT", "50000", 1));
    let got = after_secondary(secondary).unwrap();
    bus.publish(event_trading::event::Event::PriceUpdated(got.clone())).unwrap();
    assert_eq!(got.symbol, "BTCUSDT");
    assert_eq!(bus.count("Error"), 1);
    assert_eq!(bus.count("PriceUpdated"), 1);
    match &bus.events()[0] {
        event_trading::event::Event::Error(msg) => {
            assert_eq!(msg, "Primary feed failed: Network error: connection refused")
        }
        _ => panic!("expected an error event"),
    }
}

#[test]
fn resilient_secondary_failure_is_market_data() {
    let r = after_secondary(Err(TradingError::Network("down".to_string())));
    match r {
        Err(TradingError::MarketData(m)) => assert_eq!(m, "Secondary feed failed: Network error: down"),
        _ => panic!("expected a market-data error"),
    }
    let mut bus = EventBus::new();
    let ok = after_primary(Ok(ev("BTC", "1", 1)), &mut bus);
    assert!(matches!(ok, Failover::Done(_)));
    assert_eq!(bus.count("Error"), 0);
    assert_eq!(resilient_exchange_name(), "ResilientFetcher");
}

#[test]
fn normalize_refuses_price_that_rounds_to_zero() {
    let e = PriceEvent::at("BTC".to_string(), d("0.000000001"), d("1"), 0);
    assert!(matches!(PriceValidator::normalize(e), Err(TradingError::Validation(_))));
    let e = PriceEvent::at("BTC".to_string(), d("0.000000006"), d("1"), 0);
    let n = PriceValidator::normalize(e).unwrap();
    assert_eq!(n.price.to_string(), "0.00000001");
}
