use event_trading::error::TradingError;

fn assert_send_sync<T: Send + Sync>() {}

#[test]
fn test_error_display() {
    let error = TradingError::MarketData("API timeout".to_string());
    assert_eq!(error.to_string(), "Market data error: API timeout");
}

#[test]
fn test_validation_error() {
    let error = TradingError::Validation("Invalid price".to_string());
    assert_eq!(error.to_string(), "Validation error: Invalid price");
}

#[test]
fn test_config_error() {
    let error = TradingError::Config("Missing API key".to_string());
    assert_eq!(error.to_string(), "Configuration error: Missing API key");
}

#[test]
fn test_risk_error() {
    let error = TradingError::Risk("Position too large".to_string());
    assert_eq!(error.to_string(), "Risk management error: Position too large");
}

#[test]
fn test_error_is_send_sync() {
    assert_send_sync::<TradingError>();
}

#[test]
fn every_error_kind_has_its_prefix() {
    let m = || "x".to_string();
    assert_eq!(TradingError::Network(m()).to_string(), "Network error: x");
    assert_eq!(TradingError::Execution(m()).to_string(), "Execution error: x");
    assert_eq!(TradingError::Decimal(m()).to_string(), "Decimal conversion error: x");
    assert_eq!(TradingError::DecimalParse(m()).to_string(), "Decimal parse error: x");
    assert_eq!(TradingError::Time(m()).to_string(), "Time error: x");
    assert_eq!(TradingError::Strategy(m()).to_string(), "Strategy error: x");
    assert_eq!(TradingError::EventBus(m()).to_string(), "Event bus error: x");
    assert_eq!(TradingError::Io(m()).to_string(), "IO error: x");
    assert_eq!(TradingError::Env(m()).to_string(), "Environment variable error: x");
}
