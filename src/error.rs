//! The error kinds of the engine.
use vstd::prelude::*;
use vstd::string::StringExecFns;

verus! {

/// Every failure the engine reports, each with its message.
#[derive(Clone, Debug)]
pub enum TradingError {
    MarketData(String),
    Network(String),
    Validation(String),
    Execution(String),
    Decimal(String),
    DecimalParse(String),
    Time(String),
    Config(String),
    Strategy(String),
    Risk(String),
    EventBus(String),
    Io(String),
    Env(String),
}

/// The text of `s` behind the prefix `p`.
fn prefixed(p: &str, s: &String) -> (r: String)
    ensures
        r@ == p@ + s@,
{
    let owned = p.to_owned();
    owned.concat(s.as_str())
}

impl TradingError {
    /// The message carried by the error.
    pub open spec fn msg(&self) -> Seq<char> {
        match self {
            TradingError::MarketData(s) => s@,
            TradingError::Network(s) => s@,
            TradingError::Validation(s) => s@,
            TradingError::Execution(s) => s@,
            TradingError::Decimal(s) => s@,
            TradingError::DecimalParse(s) => s@,
            TradingError::Time(s) => s@,
            TradingError::Config(s) => s@,
            TradingError::Strategy(s) => s@,
            TradingError::Risk(s) => s@,
            TradingError::EventBus(s) => s@,
            TradingError::Io(s) => s@,
            TradingError::Env(s) => s@,
        }
    }

    /// The prefix that names the kind of error.
    pub open spec fn prefix(&self) -> Seq<char> {
        match self {
            TradingError::MarketData(_) => "Market data error: "@,
            TradingError::Network(_) => "Network error: "@,
            TradingError::Validation(_) => "Validation error: "@,
            TradingError::Execution(_) => "Execution error: "@,
            TradingError::Decimal(_) => "Decimal conversion error: "@,
            TradingError::DecimalParse(_) => "Decimal parse error: "@,
            TradingError::Time(_) => "Time error: "@,
            TradingError::Config(_) => "Configuration error: "@,
            TradingError::Strategy(_) => "Strategy error: "@,
            TradingError::Risk(_) => "Risk management error: "@,
            TradingError::EventBus(_) => "Event bus error: "@,
            TradingError::Io(_) => "IO error: "@,
            TradingError::Env(_) => "Environment variable error: "@,
        }
    }

    /// The human-readable text: a prefix naming the kind, then the message.
    pub fn to_string(&self) -> (r: String)
        ensures
            r@ == self.prefix() + self.msg(),
    {
        let r = match self {
            TradingError::MarketData(s) => prefixed("Market data error: ", s),
            TradingError::Network(s) => prefixed("Network error: ", s),
            TradingError::Validation(s) => prefixed("Validation error: ", s),
            TradingError::Execution(s) => prefixed("Execution error: ", s),
            TradingError::Decimal(s) => prefixed("Decimal conversion error: ", s),
            TradingError::DecimalParse(s) => prefixed("Decimal parse error: ", s),
            TradingError::Time(s) => prefixed("Time error: ", s),
            TradingError::Config(s) => prefixed("Configuration error: ", s),
            TradingError::Strategy(s) => prefixed("Strategy error: ", s),
            TradingError::Risk(s) => prefixed("Risk management error: ", s),
            TradingError::EventBus(s) => prefixed("Event bus error: ", s),
            TradingError::Io(s) => prefixed("IO error: ", s),
            TradingError::Env(s) => prefixed("Environment variable error: ", s),
        };
        r
    }
}

} // verus!
