//! Venue, strategy and risk-profile configuration.
use crate::error::TradingError;
use crate::money::{pow10, Money};
use vstd::prelude::*;

verus! {

#[derive(PartialEq, Eq, Structural, Clone, Copy, Debug)]
pub enum ExchangeType {
    /// Spot venue with a `{symbol, lastPrice, volume}` ticker.
    Binance,
    /// Derivatives and spot venue with a category ticker list.
    Bybit,
}

impl ExchangeType {
    /// The venue's name, as its fetcher reports it.
    pub fn exchange_name(&self) -> (r: &'static str)
        ensures
            *self == ExchangeType::Binance ==> r@ == "Binance"@,
            *self == ExchangeType::Bybit ==> r@ == "Bybit"@,
    {
        match self {
            ExchangeType::Binance => "Binance",
            ExchangeType::Bybit => "Bybit",
        }
    }

    pub fn description(&self) -> (r: &'static str)
        ensures
            *self == ExchangeType::Binance ==> r@ == "Binance - Crypto spot trading"@,
            *self == ExchangeType::Bybit ==> r@ == "Bybit - Crypto derivatives & spot"@,
    {
        match self {
            ExchangeType::Binance => "Binance - Crypto spot trading",
            ExchangeType::Bybit => "Bybit - Crypto derivatives & spot",
        }
    }
}

/// The label a venue is listed under in reports.
pub fn exchange_name(exchange_type: &ExchangeType) -> (r: String)
    ensures
        *exchange_type == ExchangeType::Binance ==> r@ == "Binance (Crypto Spot)"@,
        *exchange_type == ExchangeType::Bybit ==> r@ == "Bybit (Crypto Derivatives & Spot)"@,
{
    match exchange_type {
        ExchangeType::Binance => "Binance (Crypto Spot)".to_owned(),
        ExchangeType::Bybit => "Bybit (Crypto Derivatives & Spot)".to_owned(),
    }
}

#[derive(Clone, Debug)]
pub struct ExchangeConfig {
    pub exchange_type: ExchangeType,
    pub api_key: Option<String>,
    pub api_secret: Option<String>,
    pub enabled: bool,
}

impl ExchangeConfig {
    /// Paper trading needs no credentials: always accepted.
    pub fn validate(&self) -> (r: Result<(), TradingError>)
        ensures
            r is Ok,
    {
        Ok(())
    }

    /// An enabled venue needs both an API key and a secret.
    pub fn validate_for_trading(&self) -> (r: Result<(), TradingError>)
        ensures
            r is Err <==> self.enabled && (self.api_key is None || self.api_secret is None),
            r matches Err(e) ==> (e matches TradingError::Config(m) && m@
                == "Missing API credentials for trading"@),
    {
        if self.enabled {
            if self.api_key.is_none() || self.api_secret.is_none() {
                return Err(TradingError::Config("Missing API credentials for trading".to_owned()));
            }
        }
        Ok(())
    }
}

/// Preset risk appetite; each expands into numeric limits.
#[derive(PartialEq, Eq, Structural, Clone, Copy, Debug)]
pub enum RiskProfile {
    Conservative,
    Balanced,
    Aggressive,
}

/// Limits of a profile; the percentages are of account equity.
#[derive(Clone, Copy, Debug)]
pub struct RiskParams {
    pub max_risk_per_trade: Money,
    pub max_daily_loss: Money,
    pub max_drawdown: Money,
    pub max_position_size: Money,
    pub max_open_positions: usize,
    pub max_leverage: Money,
}

impl RiskParams {
    pub open spec fn wf(&self) -> bool {
        self.max_risk_per_trade.wf() && self.max_daily_loss.wf() && self.max_drawdown.wf()
            && self.max_position_size.wf() && self.max_leverage.wf()
    }
}

/// The profile's numbers: risk per trade, daily loss, drawdown, position size
/// (all in percent), open positions, leverage.
pub open spec fn profile_numbers(p: RiskProfile) -> (int, int, int, int, int, int) {
    match p {
        RiskProfile::Conservative => (1, 5, 10, 1, 3, 10),
        RiskProfile::Balanced => (2, 10, 20, 2, 5, 15),
        RiskProfile::Aggressive => (3, 15, 30, 5, 10, 20),
    }
}

/// The whole number `n` as a decimal of scale 0.
pub open spec fn whole(n: i128) -> Money {
    Money { mantissa: n, scale: 0 }
}

/// The preset limits of a profile, as exact decimals.
pub open spec fn profile_params(p: RiskProfile) -> RiskParams {
    match p {
        RiskProfile::Conservative => RiskParams {
            max_risk_per_trade: whole(1),
            max_daily_loss: whole(5),
            max_drawdown: whole(10),
            max_position_size: whole(1),
            max_open_positions: 3,
            max_leverage: whole(1),
        },
        RiskProfile::Balanced => RiskParams {
            max_risk_per_trade: whole(2),
            max_daily_loss: whole(10),
            max_drawdown: whole(20),
            max_position_size: whole(2),
            max_open_positions: 5,
            max_leverage: Money { mantissa: 15, scale: 1 },
        },
        RiskProfile::Aggressive => RiskParams {
            max_risk_per_trade: whole(3),
            max_daily_loss: whole(15),
            max_drawdown: whole(30),
            max_position_size: whole(5),
            max_open_positions: 10,
            max_leverage: whole(2),
        },
    }
}

impl RiskProfile {
    /// The preset limits; leverage is in tenths in `profile_numbers`.
    pub fn params(&self) -> (r: RiskParams)
        ensures
            r.wf(),
            r.max_risk_per_trade.units() == profile_numbers(*self).0 * pow10(28),
            r.max_daily_loss.units() == profile_numbers(*self).1 * pow10(28),
            r.max_drawdown.units() == profile_numbers(*self).2 * pow10(28),
            r.max_position_size.units() == profile_numbers(*self).3 * pow10(28),
            r.max_open_positions == profile_numbers(*self).4,
            r.max_leverage.units() * 10 == profile_numbers(*self).5 * pow10(28),
            r == profile_params(*self),
    {
        proof {
            reveal_with_fuel(pow10, 2);
            assert(pow10(28) == 10 * pow10(27));
        }
        match self {
            RiskProfile::Conservative => RiskParams {
                max_risk_per_trade: Money::new(1, 0),
                max_daily_loss: Money::new(5, 0),
                max_drawdown: Money::new(10, 0),
                max_position_size: Money::new(1, 0),
                max_open_positions: 3,
                max_leverage: Money::new(1, 0),
            },
            RiskProfile::Balanced => RiskParams {
                max_risk_per_trade: Money::new(2, 0),
                max_daily_loss: Money::new(10, 0),
                max_drawdown: Money::new(20, 0),
                max_position_size: Money::new(2, 0),
                max_open_positions: 5,
                max_leverage: Money::new(15, 1),
            },
            RiskProfile::Aggressive => RiskParams {
                max_risk_per_trade: Money::new(3, 0),
                max_daily_loss: Money::new(15, 0),
                max_drawdown: Money::new(30, 0),
                max_position_size: Money::new(5, 0),
                max_open_positions: 10,
                max_leverage: Money::new(2, 0),
            },
        }
    }

    pub fn description(&self) -> (r: &'static str)
        ensures
            *self == RiskProfile::Conservative ==> r@
                == "Conservative (1% per trade, 5% daily limit, no leverage)"@,
            *self == RiskProfile::Balanced ==> r@
                == "Balanced (2% per trade, 10% daily limit, 1.5x leverage)"@,
            *self == RiskProfile::Aggressive ==> r@
                == "Aggressive (3% per trade, 15% daily limit, 2x leverage)"@,
    {
        match self {
            RiskProfile::Conservative => "Conservative (1% per trade, 5% daily limit, no leverage)",
            RiskProfile::Balanced => "Balanced (2% per trade, 10% daily limit, 1.5x leverage)",
            RiskProfile::Aggressive => "Aggressive (3% per trade, 15% daily limit, 2x leverage)",
        }
    }
}

#[derive(Clone, Copy, Debug)]
pub enum StrategyType {
    MeanReversion { threshold: Money, window_size: usize },
    MovingAverage { short_window: usize, long_window: usize },
}

#[derive(Clone, Debug)]
pub struct StrategyConfig {
    pub strategy_type: StrategyType,
    pub symbol: String,
    pub risk_profile: RiskProfile,
    pub enabled: bool,
}

impl StrategyConfig {
    /// A non-empty symbol; a mean-reversion threshold in (0, 1) and a positive
    /// window; moving-average windows positive with short below long.
    pub fn validate(&self) -> (r: Result<(), TradingError>)
        requires
            self.strategy_type matches StrategyType::MeanReversion { threshold, .. } ==> threshold.wf(),
        ensures
            r is Ok <==> self.symbol@.len() > 0 && match self.strategy_type {
                StrategyType::MeanReversion { threshold, window_size } => 0 < threshold.units()
                    < pow10(28) && window_size > 0,
                StrategyType::MovingAverage { short_window, long_window } => short_window > 0
                    && long_window > 0 && short_window < long_window,
            },
            r matches Err(e) ==> e is Validation,
    {
        if self.symbol.as_str().is_empty() {
            return Err(TradingError::Validation("Symbol cannot be empty".to_owned()));
        }
        match self.strategy_type {
            StrategyType::MeanReversion { threshold, window_size } => {
                let one = Money::from_int(1);
                if !threshold.is_positive() || threshold.compare(&one) >= 0 {
                    return Err(
                        TradingError::Validation(
                            "MeanReversion threshold must be between 0 and 1".to_owned(),
                        ),
                    );
                }
                if window_size == 0 {
                    return Err(
                        TradingError::Validation("Window size must be greater than 0".to_owned()),
                    );
                }
            },
            StrategyType::MovingAverage { short_window, long_window } => {
                if short_window == 0 || long_window == 0 {
                    return Err(
                        TradingError::Validation("Window sizes must be greater than 0".to_owned()),
                    );
                }
                if short_window >= long_window {
                    return Err(
                        TradingError::Validation(
                            "Short window must be less than long window".to_owned(),
                        ),
                    );
                }
            },
        }
        Ok(())
    }

    pub fn get_risk_params(&self) -> (r: RiskParams)
        ensures
            r.wf(),
            r.max_open_positions == profile_numbers(self.risk_profile).4,
            r.max_risk_per_trade.units() == profile_numbers(self.risk_profile).0 * pow10(28),
    {
        self.risk_profile.params()
    }
}

} // verus!
