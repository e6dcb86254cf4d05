//! Portfolio limits, position sizing, stop-loss rules and the risk engine.
use crate::config::RiskParams;
use crate::error::TradingError;
use crate::money::{pow10, quot_units, Money, MAX_SCALE};
use crate::portfolio::{fold_notional, fold_pnl, position_of, zero_money, compute_pnl, holds, pnl_of, sum_notional, sum_pnl, closing, Portfolio, Position, PositionSide};
use vstd::prelude::*;

verus! {

/// `a * pct / 100`, exactly, where the product and its scale allow it.
pub open spec fn percent_spec(a: Money, pct: Money) -> Option<Money> {
    match a.mul_spec(pct) {
        Some(p) => if p.scale + 2 <= MAX_SCALE {
            Some(Money { mantissa: p.mantissa, scale: (p.scale + 2) as u32 })
        } else {
            None
        },
        None => None,
    }
}

/// `a * pct / 100`, exactly.
pub fn percent_of(a: &Money, pct: &Money) -> (r: Option<Money>)
    requires
        a.wf(),
        pct.wf(),
    ensures
        r == percent_spec(*a, *pct),
        r matches Some(c) ==> c.wf() && c.units() * 100 * pow10(28) == a.units() * pct.units(),
{
    match a.checked_mul(pct) {
        Some(p) => {
            if p.scale + 2 <= MAX_SCALE {
                let c = Money { mantissa: p.mantissa, scale: p.scale + 2 };
                proof {
                    crate::money::lemma_pow10_add(2, (MAX_SCALE - c.scale) as nat);
                    reveal_with_fuel(pow10, 3);
                    assert(p.units() == c.units() * 100) by (nonlinear_arith)
                        requires
                            p.units() == p.mantissa * pow10((MAX_SCALE - p.scale) as nat),
                            c.units() == p.mantissa * pow10((MAX_SCALE - c.scale) as nat),
                            pow10((MAX_SCALE - p.scale) as nat) == pow10(2) * pow10((MAX_SCALE - c.scale) as nat),
                            pow10(2) == 100,
                    ;
                }
                Some(c)
            } else {
                None
            }
        },
        None => None,
    }
}

/// Absolute limits, fixed once built.
#[derive(Clone, Copy, Debug)]
pub struct PortfolioLimits {
    pub max_daily_loss: Money,
    pub max_position_size: Money,
    pub max_leverage: Money,
    pub max_open_positions: usize,
}

impl PortfolioLimits {
    pub open spec fn wf(&self) -> bool {
        &&& self.max_daily_loss.wf() && self.max_position_size.wf() && self.max_leverage.wf()
        &&& self.max_daily_loss.units() > 0
        &&& self.max_position_size.units() > 0
        &&& self.max_leverage.units() >= pow10(28)
        &&& self.max_open_positions >= 1
    }

    /// Limits from an account balance and a profile: daily loss and position
    /// size are the profile's percentages of the balance.
    pub fn from_risk_params(account_balance: Money, params: RiskParams) -> (r: Result<PortfolioLimits, TradingError>)
        requires
            account_balance.wf(),
            params.wf(),
        ensures
            account_balance.units() <= 0 ==> (r matches Err(TradingError::Validation(_))),
            r matches Ok(l) ==> l.wf() && Some(l.max_daily_loss) == percent_spec(
                account_balance,
                params.max_daily_loss,
            ) && Some(l.max_position_size) == percent_spec(
                account_balance,
                params.max_position_size,
            ) && l.max_leverage == params.max_leverage && l.max_open_positions
                == params.max_open_positions,
            account_balance.units() > 0 ==> match (
                percent_spec(account_balance, params.max_daily_loss),
                percent_spec(account_balance, params.max_position_size),
            ) {
                (Some(d), Some(p)) => (r is Ok <==> (PortfolioLimits {
                    max_daily_loss: d,
                    max_position_size: p,
                    max_leverage: params.max_leverage,
                    max_open_positions: params.max_open_positions,
                }).wf()) && (r matches Err(e) ==> e is Validation),
                _ => r matches Err(TradingError::Decimal(_)),
            },
    {
        if !account_balance.is_positive() {
            return Err(TradingError::Validation("Account balance must be positive".to_owned()));
        }
        let daily = match percent_of(&account_balance, &params.max_daily_loss) {
            Some(d) => d,
            None => {
                return Err(TradingError::Decimal("daily loss limit out of decimal range".to_owned()));
            },
        };
        let size = match percent_of(&account_balance, &params.max_position_size) {
            Some(d) => d,
            None => {
                return Err(TradingError::Decimal("position size limit out of decimal range".to_owned()));
            },
        };
        Self::new(daily, size, params.max_leverage, params.max_open_positions)
    }

    /// Limits with a positive daily loss and position size, a leverage of at
    /// least 1 and at least one open position.
    pub fn new(
        max_daily_loss: Money,
        max_position_size: Money,
        max_leverage: Money,
        max_open_positions: usize,
    ) -> (r: Result<PortfolioLimits, TradingError>)
        requires
            max_daily_loss.wf(),
            max_position_size.wf(),
            max_leverage.wf(),
        ensures
            r is Ok <==> max_daily_loss.units() > 0 && max_position_size.units() > 0
                && max_leverage.units() >= pow10(28) && max_open_positions >= 1,
            r matches Err(e) ==> e is Validation,
            r matches Ok(l) ==> l.wf() && l == (PortfolioLimits {
                max_daily_loss,
                max_position_size,
                max_leverage,
                max_open_positions,
            }),
    {
        if !max_daily_loss.is_positive() {
            return Err(TradingError::Validation("Max daily loss must be positive".to_owned()));
        }
        if !max_position_size.is_positive() {
            return Err(TradingError::Validation("Max position size must be positive".to_owned()));
        }
        let one = Money::from_int(1);
        if max_leverage.compare(&one) < 0 {
            return Err(TradingError::Validation("Max leverage must be at least 1.0".to_owned()));
        }
        if max_open_positions == 0 {
            return Err(TradingError::Validation("Max open positions must be at least 1".to_owned()));
        }
        Ok(PortfolioLimits { max_daily_loss, max_position_size, max_leverage, max_open_positions })
    }

    /// Whether a (non-negative) daily loss is above the limit.
    pub fn is_daily_loss_exceeded(&self, current_daily_loss: Money) -> (r: Result<bool, TradingError>)
        requires
            self.wf(),
            current_daily_loss.wf(),
        ensures
            current_daily_loss.units() < 0 ==> (r matches Err(TradingError::Validation(_))),
            current_daily_loss.units() >= 0 ==> r == Ok::<bool, TradingError>(
                current_daily_loss.units() > self.max_daily_loss.units(),
            ),
    {
        if current_daily_loss.is_negative() {
            return Err(TradingError::Validation("Daily loss cannot be negative".to_owned()));
        }
        Ok(current_daily_loss.compare(&self.max_daily_loss) > 0)
    }

    /// Whether a (positive) notional is above the limit.
    pub fn is_position_too_large(&self, position_size: Money) -> (r: Result<bool, TradingError>)
        requires
            self.wf(),
            position_size.wf(),
        ensures
            position_size.units() <= 0 ==> (r matches Err(TradingError::Validation(_))),
            position_size.units() > 0 ==> r == Ok::<bool, TradingError>(
                position_size.units() > self.max_position_size.units(),
            ),
    {
        if !position_size.is_positive() {
            return Err(TradingError::Validation("Position size must be positive".to_owned()));
        }
        Ok(position_size.compare(&self.max_position_size) > 0)
    }

    /// Whether a (positive) leverage is above the limit.
    pub fn is_leverage_exceeded(&self, used_leverage: Money) -> (r: Result<bool, TradingError>)
        requires
            self.wf(),
            used_leverage.wf(),
        ensures
            used_leverage.units() <= 0 ==> (r matches Err(TradingError::Validation(_))),
            used_leverage.units() > 0 ==> r == Ok::<bool, TradingError>(
                used_leverage.units() > self.max_leverage.units(),
            ),
    {
        if !used_leverage.is_positive() {
            return Err(TradingError::Validation("Leverage must be positive".to_owned()));
        }
        Ok(used_leverage.compare(&self.max_leverage) > 0)
    }

    /// Whether one more position fits under the cap.
    pub fn can_open_new_position(&self, current_open_positions: usize) -> (r: Result<bool, TradingError>)
        ensures
            r == Ok::<bool, TradingError>(current_open_positions < self.max_open_positions),
    {
        Ok(current_open_positions < self.max_open_positions)
    }
}

/// Position size from the amount put at risk.
pub struct PositionSizer;

/// `size = (balance * risk_pct / 100) / stop_distance`, rounded to 8 digits.
pub open spec fn size_spec(balance: Money, risk_pct: Money, stop: Money) -> Option<Money> {
    match percent_spec(balance, risk_pct) {
        Some(risk) => risk.div_spec(stop, 8),
        None => None,
    }
}

impl PositionSizer {
    /// Size so that a move of `stop_loss_distance` loses `risk_percentage` of
    /// the balance, rounded half-to-even to 8 digits.
    pub fn calculate(account_balance: Money, risk_percentage: Money, stop_loss_distance: Money) -> (r:
        Result<Money, TradingError>)
        requires
            account_balance.wf(),
            risk_percentage.wf(),
            stop_loss_distance.wf(),
        ensures
            ({
                let valid = account_balance.units() > 0 && risk_percentage.units() > 0
                    && risk_percentage.units() <= 100 * pow10(28) && stop_loss_distance.units() > 0;
                &&& !valid ==> (r matches Err(TradingError::Validation(_)))
                &&& valid ==> match size_spec(account_balance, risk_percentage, stop_loss_distance) {
                    Some(s) => r == Ok::<Money, TradingError>(s),
                    None => r matches Err(TradingError::Decimal(_)),
                }
            }),
            r matches Ok(s) ==> s.wf() && s.scale == 8 && s.units() == quot_units(
                account_balance.units() * risk_percentage.units(),
                100 * pow10(28) * stop_loss_distance.units(),
                8,
            ),
    {
        if !account_balance.is_positive() {
            return Err(TradingError::Validation("Account balance must be positive".to_owned()));
        }
        let hundred = Money::from_int(100);
        if !risk_percentage.is_positive() || risk_percentage.compare(&hundred) > 0 {
            return Err(
                TradingError::Validation("Risk percentage must be between 0 and 100".to_owned()),
            );
        }
        if !stop_loss_distance.is_positive() {
            return Err(TradingError::Validation("Stop loss distance must be positive".to_owned()));
        }
        let risk = match percent_of(&account_balance, &risk_percentage) {
            Some(x) => x,
            None => {
                return Err(TradingError::Decimal("risk amount out of decimal range".to_owned()));
            },
        };
        match risk.div_round(&stop_loss_distance, 8) {
            Some(s) => {
                proof {
                    crate::money::lemma_pow10_pos(28);
                    crate::money::lemma_pow10_pos(8);
                    assert((risk.units() * pow10(8)) * (100 * pow10(28)) == (account_balance.units()
                        * risk_percentage.units()) * pow10(8)) by (nonlinear_arith)
                        requires
                            risk.units() * 100 * pow10(28) == account_balance.units() * risk_percentage.units(),
                    ;
                    assert(stop_loss_distance.units() * (100 * pow10(28)) == 100 * pow10(28) * stop_loss_distance.units())
                        by (nonlinear_arith);
                    crate::money::lemma_round_scale(
                        risk.units() * pow10(8),
                        stop_loss_distance.units(),
                        100 * pow10(28),
                    );
                }
                Ok(s)
            },
            None => Err(TradingError::Decimal("position size out of decimal range".to_owned())),
        }
    }

    /// The largest notional allowed: `balance * max_pct / 100`, rounded to 8 digits.
    pub fn max_position_size(account_balance: Money, max_position_percentage: Money) -> (r: Result<
        Money,
        TradingError,
    >)
        requires
            account_balance.wf(),
            max_position_percentage.wf(),
        ensures
            ({
                let valid = account_balance.units() > 0 && max_position_percentage.units() > 0
                    && max_position_percentage.units() <= 100 * pow10(28);
                &&& !valid ==> (r matches Err(TradingError::Validation(_)))
                &&& valid ==> match percent_spec(account_balance, max_position_percentage) {
                    Some(s) => r == Ok::<Money, TradingError>(s.round_spec(8)),
                    None => r matches Err(TradingError::Decimal(_)),
                }
            }),
    {
        if !account_balance.is_positive() {
            return Err(TradingError::Validation("Account balance must be positive".to_owned()));
        }
        let hundred = Money::from_int(100);
        if !max_position_percentage.is_positive() || max_position_percentage.compare(&hundred) > 0 {
            return Err(
                TradingError::Validation("Max position percentage must be between 0 and 100".to_owned()),
            );
        }
        match percent_of(&account_balance, &max_position_percentage) {
            Some(x) => Ok(x.round_dp(8)),
            None => Err(TradingError::Decimal("position size out of decimal range".to_owned())),
        }
    }
}

/// The stop for an entry and distance: `entry - distance` for a long,
/// `entry + distance` for a short, rounded to 8 digits, if it is positive and in range.
pub open spec fn stop_spec(entry: Money, dist: Money, is_long: bool) -> Option<Money> {
    let raw = if is_long {
        entry.sub_spec(dist)
    } else {
        entry.add_spec(dist)
    };
    match raw {
        Some(s) => if s.units() > 0 {
            Some(s.round_spec(8))
        } else {
            None
        },
        None => None,
    }
}

/// Stop placement, stop hits and profit of a move.
pub struct StopLossManager;

impl StopLossManager {
    /// `entry - distance` for a long, `entry + distance` for a short, rounded to
    /// 8 digits; a stop at or below zero is refused.
    pub fn calculate_stop_loss(entry_price: Money, stop_loss_distance: Money, is_long: bool) -> (r:
        Result<Money, TradingError>)
        requires
            entry_price.wf(),
            stop_loss_distance.wf(),
        ensures
            ({
                let raw = if is_long {
                    entry_price.sub_spec(stop_loss_distance)
                } else {
                    entry_price.add_spec(stop_loss_distance)
                };
                let valid = entry_price.units() > 0 && stop_loss_distance.units() > 0;
                &&& !valid ==> (r matches Err(TradingError::Validation(_)))
                &&& valid ==> match raw {
                    Some(s) => if s.units() > 0 {
                        r == Ok::<Money, TradingError>(s.round_spec(8))
                    } else {
                        r matches Err(TradingError::Validation(_))
                    },
                    None => r matches Err(TradingError::Decimal(_)),
                }
            }),
            entry_price.units() > 0 && stop_loss_distance.units() > 0 ==> (r is Ok <==> stop_spec(
                entry_price,
                stop_loss_distance,
                is_long,
            ) is Some),
            r matches Ok(s) ==> Some(s) == stop_spec(entry_price, stop_loss_distance, is_long),
            r matches Ok(s) ==> s.wf() && s.units() == crate::money::round_units(
                if is_long {
                    entry_price.units() - stop_loss_distance.units()
                } else {
                    entry_price.units() + stop_loss_distance.units()
                },
                8,
            ),
    {
        if !entry_price.is_positive() {
            return Err(TradingError::Validation("Entry price must be positive".to_owned()));
        }
        if !stop_loss_distance.is_positive() {
            return Err(TradingError::Validation("Stop loss distance must be positive".to_owned()));
        }
        let raw = if is_long {
            entry_price.checked_sub(&stop_loss_distance)
        } else {
            entry_price.checked_add(&stop_loss_distance)
        };
        match raw {
            Some(s) => {
                if !s.is_positive() {
                    return Err(TradingError::Validation("Stop loss price would be invalid".to_owned()));
                }
                Ok(s.round_dp(8))
            },
            None => Err(TradingError::Decimal("stop loss out of decimal range".to_owned())),
        }
    }

    /// A long is stopped at or below its stop, a short at or above it.
    pub fn is_stop_hit(current_price: Money, stop_loss_price: Money, is_long: bool) -> (r: Result<
        bool,
        TradingError,
    >)
        requires
            current_price.wf(),
            stop_loss_price.wf(),
        ensures
            !(current_price.units() > 0 && stop_loss_price.units() > 0) ==> (r matches Err(
                TradingError::Validation(_),
            )),
            current_price.units() > 0 && stop_loss_price.units() > 0 ==> r == Ok::<bool, TradingError>(
                if is_long {
                    current_price.units() <= stop_loss_price.units()
                } else {
                    current_price.units() >= stop_loss_price.units()
                },
            ),
    {
        if !current_price.is_positive() || !stop_loss_price.is_positive() {
            return Err(TradingError::Validation("Prices must be positive".to_owned()));
        }
        let c = current_price.compare(&stop_loss_price);
        if is_long {
            Ok(c <= 0)
        } else {
            Ok(c >= 0)
        }
    }

    /// `(current - entry) * size`, negated for a short, rounded to 8 digits.
    pub fn calculate_pnl(entry_price: Money, current_price: Money, position_size: Money, is_long: bool) -> (r:
        Result<Money, TradingError>)
        requires
            entry_price.wf(),
            current_price.wf(),
            position_size.wf(),
        ensures
            ({
                let side = if is_long { PositionSide::Long } else { PositionSide::Short };
                let valid = entry_price.units() > 0 && current_price.units() > 0
                    && position_size.units() > 0;
                &&& !valid ==> (r matches Err(TradingError::Validation(_)))
                &&& valid ==> match pnl_of(side, entry_price, current_price, position_size) {
                    Some(p) => r == Ok::<Money, TradingError>(p),
                    None => r matches Err(TradingError::Decimal(_)),
                }
            }),
    {
        if !entry_price.is_positive() || !current_price.is_positive() || !position_size.is_positive() {
            return Err(
                TradingError::Validation("All prices and position size must be positive".to_owned()),
            );
        }
        let side = if is_long {
            PositionSide::Long
        } else {
            PositionSide::Short
        };
        match compute_pnl(side, &entry_price, &current_price, &position_size) {
            Some(p) => Ok(p),
            None => Err(TradingError::Decimal("profit out of decimal range".to_owned())),
        }
    }
}

/// The central gate: balance, open positions, limits, kill-switch, daily loss
/// and peak equity.
#[derive(Debug)]
pub struct RiskEngine {
    account_balance: Money,
    portfolio: Portfolio,
    limits: PortfolioLimits,
    kill_switch: bool,
    kill_switch_reason: Option<String>,
    daily_loss: Money,
    peak_equity: Money,
}

impl RiskEngine {
    pub closed spec fn balance(&self) -> Money {
        self.account_balance
    }

    pub closed spec fn book(&self) -> Portfolio {
        self.portfolio
    }

    pub closed spec fn limits(&self) -> PortfolioLimits {
        self.limits
    }

    pub closed spec fn kill(&self) -> bool {
        self.kill_switch
    }

    pub closed spec fn reason(&self) -> Option<Seq<char>> {
        match self.kill_switch_reason {
            Some(s) => Some(s@),
            None => None,
        }
    }

    pub closed spec fn daily(&self) -> Money {
        self.daily_loss
    }

    pub closed spec fn peak(&self) -> Money {
        self.peak_equity
    }

    /// Balance plus the unrealised profit of the open positions, in units of 10^-28.
    pub open spec fn equity_units(&self) -> int {
        self.balance().units() + sum_pnl(self.book().positions())
    }

    pub open spec fn positions(&self) -> Seq<Position> {
        self.book().positions()
    }

    pub closed spec fn wf(&self) -> bool {
        &&& self.account_balance.wf()
        &&& self.portfolio.wf()
        &&& self.limits.wf()
        &&& self.daily_loss.wf()
        &&& self.peak_equity.wf()
        &&& self.kill_switch <==> self.kill_switch_reason is Some
    }

    /// The state refresh: the peak follows the equity up, and the daily loss is
    /// the shortfall of equity below the balance (zero when there is none).
    pub open spec fn refreshed(old: RiskEngine, new: RiskEngine) -> bool {
        let eq = old.equity_units();
        &&& new.peak().units() == if eq > old.peak().units() { eq } else { old.peak().units() }
        &&& new.daily().units() == if eq < old.balance().units() { old.balance().units() - eq } else { 0 }
    }

    /// Balance plus unrealised profit as the decimal arithmetic computes it.
    pub open spec fn equity_opt(&self) -> Option<Money> {
        match fold_pnl(zero_money(), self.positions()) {
            Some(p) => self.balance().add_spec(p),
            None => None,
        }
    }

    /// Whether the state refresh can compute the equity and the daily loss.
    pub open spec fn refresh_ok(&self) -> bool {
        match self.equity_opt() {
            Some(q) => q.units() < self.balance().units() ==> self.balance().sub_spec(q) is Some,
            None => false,
        }
    }

    /// The daily loss a refresh sets, in units of 10^-28.
    pub open spec fn daily_after(&self) -> int {
        let eq = self.equity_units();
        if eq < self.balance().units() {
            self.balance().units() - eq
        } else {
            0
        }
    }

    /// Which of the ordered pre-trade checks decides: 0 switch tripped, 1 a
    /// non-positive input, 2 no room for a position, 3 notional out of range,
    /// 4 notional above the limit, 5 exposure out of range, 6 equity out of
    /// range, 7 equity depleted, 8 leverage not computable or not positive,
    /// 9 leverage above the limit, 10 refresh out of range, 11 daily loss
    /// above the limit, 12 every check passes.
    pub open spec fn pre_trade_stage(&self, entry: Money, size: Money, dist: Money) -> int {
        if self.kill() {
            0
        } else if !(entry.units() > 0 && size.units() > 0 && dist.units() > 0) {
            1
        } else if !(self.positions().len() < self.limits().max_open_positions) {
            2
        } else {
            match entry.mul_spec(size) {
                None => 3,
                Some(n) => if n.units() > self.limits().max_position_size.units() {
                    4
                } else {
                    match fold_notional(zero_money(), self.positions()) {
                        None => 5,
                        Some(x) => match x.add_spec(n) {
                            None => 5,
                            Some(proj) => match self.equity_opt() {
                                None => 6,
                                Some(q) => if q.units() <= 0 {
                                    7
                                } else {
                                    match proj.div_spec(q, 8) {
                                        None => 8,
                                        Some(l) => if l.units() <= 0 {
                                            8
                                        } else if l.units() > self.limits().max_leverage.units() {
                                            9
                                        } else if !self.refresh_ok() {
                                            10
                                        } else if self.daily_after()
                                            > self.limits().max_daily_loss.units() {
                                            11
                                        } else {
                                            12
                                        },
                                    }
                                },
                            },
                        },
                    }
                },
            }
        }
    }

    /// A fresh engine for a positive balance: no positions, switch armed, no
    /// daily loss, peak equity at the balance.
    pub fn new(account_balance: Money, limits: PortfolioLimits) -> (r: Result<RiskEngine, TradingError>)
        requires
            account_balance.wf(),
            limits.wf(),
        ensures
            r is Err <==> account_balance.units() <= 0,
            r matches Err(e) ==> e is Validation,
            r matches Ok(e) ==> e.wf() && e.balance() == account_balance && e.positions().len() == 0
                && e.book().realized().units() == 0 && e.limits() == limits && !e.kill()
                && e.reason() is None && e.daily().units() == 0 && e.peak() == account_balance,
    {
        if !account_balance.is_positive() {
            return Err(TradingError::Validation("Account balance must be positive".to_owned()));
        }
        Ok(
            RiskEngine {
                account_balance,
                portfolio: Portfolio::new(),
                limits,
                kill_switch: false,
                kill_switch_reason: None,
                daily_loss: Money::zero(),
                peak_equity: account_balance,
            },
        )
    }

    pub fn account_balance(&self) -> (r: Money)
        requires
            self.wf(),
        ensures
            r == self.balance(),
            r.wf(),
    {
        self.account_balance
    }

    pub fn portfolio(&self) -> (r: &Portfolio)
        ensures
            *r == self.book(),
    {
        &self.portfolio
    }

    pub fn daily_loss(&self) -> (r: Money)
        ensures
            r == self.daily(),
    {
        self.daily_loss
    }

    pub fn peak_equity(&self) -> (r: Money)
        ensures
            r == self.peak(),
    {
        self.peak_equity
    }

    /// Balance plus unrealised profit; a sum out of decimal range is a decimal error.
    pub fn equity(&self) -> (r: Result<Money, TradingError>)
        requires
            self.wf(),
        ensures
            r matches Ok(m) ==> m.wf() && m.units() == self.equity_units(),
            r matches Err(e) ==> e is Decimal,
            r is Ok <==> self.equity_opt() is Some,
            r matches Ok(m) ==> self.equity_opt() == Some(m),
    {
        let pnl = self.portfolio.unrealized_pnl()?;
        match self.account_balance.checked_add(&pnl) {
            Some(e) => Ok(e),
            None => Err(TradingError::Decimal("equity out of decimal range".to_owned())),
        }
    }

    pub fn open_positions(&self) -> (r: usize)
        requires
            self.wf(),
        ensures
            r == self.positions().len(),
    {
        self.portfolio.open_positions()
    }

    pub fn is_kill_switch_active(&self) -> (r: bool)
        ensures
            r == self.kill(),
    {
        self.kill_switch
    }

    pub fn kill_switch_reason(&self) -> (r: Option<&str>)
        requires
            self.wf(),
        ensures
            r is Some <==> self.kill(),
            r is Some <==> self.reason() is Some,
            r matches Some(s) ==> self.reason() == Some(s@),
    {
        match &self.kill_switch_reason {
            Some(s) => Some(s.as_str()),
            None => None,
        }
    }

    /// Trips the switch; the reason of the first activation is kept.
    pub fn activate_kill_switch(&mut self, reason: String)
        requires
            old(self).wf(),
        ensures
            final(self).wf(),
            final(self).kill(),
            final(self).reason() == if old(self).kill() {
                old(self).reason()
            } else {
                Some(reason@)
            },
            final(self).balance() == old(self).balance(),
            final(self).book() == old(self).book(),
            final(self).limits() == old(self).limits(),
            final(self).daily() == old(self).daily(),
            final(self).peak() == old(self).peak(),
    {
        if !self.kill_switch {
            self.kill_switch = true;
            self.kill_switch_reason = Some(reason);
        }
    }

    /// Re-arms the switch.
    pub fn deactivate_kill_switch(&mut self)
        requires
            old(self).wf(),
        ensures
            final(self).wf(),
            !final(self).kill(),
            final(self).reason() is None,
            final(self).balance() == old(self).balance(),
            final(self).book() == old(self).book(),
            final(self).limits() == old(self).limits(),
            final(self).daily() == old(self).daily(),
            final(self).peak() == old(self).peak(),
    {
        self.kill_switch = false;
        self.kill_switch_reason = None;
    }

    fn update_risk_state(&mut self) -> (r: Result<(), TradingError>)
        requires
            old(self).wf(),
        ensures
            final(self).wf(),
            r matches Err(e) ==> e is Decimal && *final(self) == *old(self),
            r is Ok <==> old(self).refresh_ok(),
            r is Ok ==> Self::refreshed(*old(self), *final(self)),
            final(self).balance() == old(self).balance(),
            final(self).book() == old(self).book(),
            final(self).limits() == old(self).limits(),
            final(self).kill() == old(self).kill(),
            final(self).reason() == old(self).reason(),
    {
        let equity = self.equity()?;
        let loss = if equity.compare(&self.account_balance) < 0 {
            match self.account_balance.checked_sub(&equity) {
                Some(l) => l,
                None => {
                    return Err(TradingError::Decimal("daily loss out of decimal range".to_owned()));
                },
            }
        } else {
            Money::zero()
        };
        if equity.compare(&self.peak_equity) > 0 {
            self.peak_equity = equity;
        }
        self.daily_loss = loss;
        Ok(())
    }

    /// Moves the last price of `symbol`'s position, then refreshes the risk state.
    pub fn update_price(&mut self, symbol: &str, price: Money) -> (r: Result<(), TradingError>)
        requires
            old(self).wf(),
            price.wf(),
        ensures
            final(self).wf(),
            final(self).balance() == old(self).balance(),
            final(self).limits() == old(self).limits(),
            final(self).kill() == old(self).kill(),
            final(self).reason() == old(self).reason(),
            final(self).positions().len() == old(self).positions().len(),
            forall|i: int|
                0 <= i < old(self).positions().len() ==> (#[trigger] final(self).positions()[i]).symbol
                    == old(self).positions()[i].symbol,
            holds(old(self).positions(), symbol@) && price.units() <= 0 ==> (r matches Err(
                TradingError::Validation(_),
            )) && final(self).positions() == old(self).positions(),
            !holds(old(self).positions(), symbol@) ==> final(self).positions() == old(self).positions(),
            r is Ok && holds(old(self).positions(), symbol@) ==> exists|i: int|
                0 <= i < old(self).positions().len() && old(self).positions()[i].symbol@ == symbol@
                    && final(self).positions() == old(self).positions().update(
                    i,
                    Position { last_price: price, ..old(self).positions()[i] },
                ),
            ({
                let p = position_of(old(self).positions(), symbol@);
                (holds(old(self).positions(), symbol@) ==> price.units() > 0 && pnl_of(
                    p.side,
                    p.entry_price,
                    price,
                    p.size,
                ) is Some) && final(self).refresh_ok() ==> r is Ok
            }),
            r is Ok ==> final(self).peak().units() >= final(self).equity_units()
                && final(self).daily().units() == if final(self).equity_units() < final(self).balance().units() {
                final(self).balance().units() - final(self).equity_units()
            } else {
                0
            },
    {
        self.portfolio.update_price(symbol, price)?;
        let ghost mid = *self;
        let r = self.update_risk_state();
        proof {
            if r is Ok {
                assert(self.equity_units() == mid.equity_units());
            }
        }
        r
    }

    /// The ordered pre-trade checks: switch armed, positive inputs, room for
    /// another position (else the switch trips), notional within the limit,
    /// positive equity (else the switch trips), projected leverage within the
    /// limit, then, after a state refresh, daily loss within the limit (else
    /// the switch trips).
    pub fn pre_trade_validate(
        &mut self,
        symbol: &str,
        side: PositionSide,
        entry_price: Money,
        position_size: Money,
        stop_loss_distance: Money,
    ) -> (r: Result<(), TradingError>)
        requires
            old(self).wf(),
            entry_price.wf(),
            position_size.wf(),
            stop_loss_distance.wf(),
        ensures
            final(self).wf(),
            final(self).balance() == old(self).balance(),
            final(self).book() == old(self).book(),
            final(self).limits() == old(self).limits(),
            ({
                let positive = entry_price.units() > 0 && position_size.units() > 0
                    && stop_loss_distance.units() > 0;
                let room = old(self).positions().len() < old(self).limits().max_open_positions;
                let notional = entry_price.mul_spec(position_size);
                &&& old(self).kill() ==> (r matches Err(TradingError::Risk(_))) && *final(self) == *old(self)
                &&& !old(self).kill() && !positive ==> (r matches Err(TradingError::Validation(_)))
                    && *final(self) == *old(self)
                &&& !old(self).kill() && positive && !room ==> (r matches Err(TradingError::Risk(_)))
                    && final(self).kill() && final(self).reason() == Some("Max open positions reached"@)
                &&& !old(self).kill() && positive && room ==> match notional {
                    None => r matches Err(TradingError::Decimal(_)),
                    Some(n) => n.units() > old(self).limits().max_position_size.units() ==> (r matches Err(
                        TradingError::Risk(_),
                    )) && *final(self) == *old(self),
                }
                &&& r is Ok ==> !old(self).kill() && positive && room && notional is Some && ({
                    let n = notional.unwrap();
                    &&& n.units() <= old(self).limits().max_position_size.units()
                    &&& old(self).equity_units() > 0
                    &&& quot_units(
                        sum_notional(old(self).positions()) + n.units(),
                        old(self).equity_units(),
                        8,
                    ) <= old(self).limits().max_leverage.units()
                    &&& Self::refreshed(*old(self), *final(self))
                    &&& final(self).daily().units() <= old(self).limits().max_daily_loss.units()
                    &&& !final(self).kill()
                })
            }),
            final(self).kill() ==> old(self).kill() || r is Err,
            old(self).kill() ==> final(self).reason() == old(self).reason(),
            ({
                let st = old(self).pre_trade_stage(entry_price, position_size, stop_loss_distance);
                &&& r is Ok <==> st == 12
                &&& st == 2 ==> (r matches Err(TradingError::Risk(m)) && m@
                    == "Max open positions reached"@)
                &&& st == 7 ==> (r matches Err(TradingError::Risk(m)) && m@ == "Equity depleted"@)
                    && final(self).kill() && final(self).reason() == Some("Equity depleted"@)
                &&& st == 9 ==> (r matches Err(TradingError::Risk(_))) && *final(self) == *old(self)
                &&& st == 11 ==> (r matches Err(TradingError::Risk(m)) && m@
                    == "Daily loss limit exceeded"@) && final(self).kill() && final(self).reason()
                    == Some("Daily loss limit exceeded"@)
                &&& final(self).kill() <==> (old(self).kill() || st == 2 || st == 7 || st == 11)
            }),
    {
        if self.kill_switch {
            return Err(TradingError::Risk("Kill-switch active; trading halted".to_owned()));
        }
        if !entry_price.is_positive() || !position_size.is_positive() || !stop_loss_distance.is_positive() {
            return Err(
                TradingError::Validation(
                    "Entry price, position size, and stop loss distance must be positive".to_owned(),
                ),
            );
        }
        if !self.limits.can_open_new_position(self.portfolio.open_positions())? {
            let msg = "Max open positions reached".to_owned();
            self.activate_kill_switch(msg.clone());
            return Err(TradingError::Risk(msg));
        }
        let notional = match entry_price.checked_mul(&position_size) {
            Some(n) => n,
            None => {
                return Err(TradingError::Decimal("notional out of decimal range".to_owned()));
            },
        };
        proof {
            crate::money::lemma_pow10_pos(28);
            assert(notional.units() > 0) by (nonlinear_arith)
                requires
                    notional.units() * pow10(28) == entry_price.units() * position_size.units(),
                    entry_price.units() > 0,
                    position_size.units() > 0,
                    pow10(28) > 0,
            ;
        }
        if self.limits.is_position_too_large(notional)? {
            return Err(TradingError::Risk("Position notional exceeds limit".to_owned()));
        }
        let exposure = self.portfolio.exposure()?;
        let projected = match exposure.checked_add(&notional) {
            Some(p) => p,
            None => {
                return Err(TradingError::Decimal("exposure out of decimal range".to_owned()));
            },
        };
        let equity = self.equity()?;
        if !equity.is_positive() {
            let msg = "Equity depleted".to_owned();
            self.activate_kill_switch(msg.clone());
            return Err(TradingError::Risk(msg));
        }
        let used_leverage = match projected.div_round(&equity, 8) {
            Some(l) => l,
            None => {
                return Err(TradingError::Decimal("leverage out of decimal range".to_owned()));
            },
        };
        if self.limits.is_leverage_exceeded(used_leverage)? {
            return Err(TradingError::Risk("Leverage exceeds limit".to_owned()));
        }
        self.update_risk_state()?;
        if self.limits.is_daily_loss_exceeded(self.daily_loss)? {
            let msg = "Daily loss limit exceeded".to_owned();
            self.activate_kill_switch(msg.clone());
            return Err(TradingError::Risk(msg));
        }
        Ok(())
    }

    /// Opens a position, unless the kill-switch is tripped (a risk error, and
    /// nothing changes).
    pub fn record_trade_open(
        &mut self,
        symbol: String,
        side: PositionSide,
        entry_price: Money,
        position_size: Money,
        stop_loss: Money,
        opened_at: u64,
    ) -> (r: Result<(), TradingError>)
        requires
            old(self).wf(),
            entry_price.wf(),
            position_size.wf(),
            stop_loss.wf(),
        ensures
            final(self).wf(),
            old(self).kill() ==> (r matches Err(TradingError::Risk(_))) && *final(self) == *old(self),
            final(self).balance() == old(self).balance(),
            final(self).limits() == old(self).limits(),
            final(self).kill() == old(self).kill(),
            final(self).reason() == old(self).reason(),
            final(self).daily() == old(self).daily(),
            final(self).peak() == old(self).peak(),
            final(self).book().realized() == old(self).book().realized(),
            r is Err ==> final(self).positions() == old(self).positions(),
            r matches Err(e) ==> e is Risk || e is Validation || e is Decimal,
            r is Ok ==> final(self).positions() == old(self).positions().push(
                Position {
                    symbol,
                    side,
                    entry_price,
                    size: position_size,
                    stop_loss,
                    opened_at,
                    last_price: entry_price,
                },
            ),
            !old(self).kill() && holds(old(self).positions(), symbol@) ==> (r matches Err(
                TradingError::Risk(_),
            )),
            !old(self).kill() && !holds(old(self).positions(), symbol@) ==> (r is Ok
                <==> Position::new_result(
                symbol,
                side,
                entry_price,
                position_size,
                stop_loss,
                opened_at,
            ) is Some),
    {
        if self.kill_switch {
            return Err(TradingError::Risk("Kill-switch active; trading halted".to_owned()));
        }
        self.portfolio.open_position(symbol, side, entry_price, position_size, stop_loss, opened_at)
    }

    /// Closes `symbol`'s position at `exit_price`, adds its profit to the
    /// balance, and refreshes the risk state.
    pub fn record_trade_close(&mut self, symbol: &str, exit_price: Money) -> (r: Result<Money, TradingError>)
        requires
            old(self).wf(),
            exit_price.wf(),
        ensures
            final(self).wf(),
            final(self).limits() == old(self).limits(),
            final(self).kill() == old(self).kill(),
            !holds(old(self).positions(), symbol@) ==> (r matches Err(TradingError::Risk(_)))
                && *final(self) == *old(self),
            holds(old(self).positions(), symbol@) && exit_price.units() <= 0 ==> (r matches Err(
                TradingError::Validation(_),
            )) && *final(self) == *old(self),
            ({
                let p = position_of(old(self).positions(), symbol@);
                let pnl = pnl_of(p.side, p.entry_price, exit_price, p.size);
                holds(old(self).positions(), symbol@) && exit_price.units() > 0 && pnl is Some
                    && old(self).balance().add_spec(pnl.unwrap()) is Some
                    && old(self).book().realized().add_spec(pnl.unwrap()) is Some
                    && final(self).refresh_ok() ==> r is Ok
            }),
            r matches Ok(pnl) ==> final(self).balance().units() == old(self).balance().units()
                + pnl.units() && exists|i: int|
                0 <= i < old(self).positions().len() && old(self).positions()[i].symbol@ == symbol@
                    && final(self).positions() == old(self).positions().remove(i) && Some(pnl)
                    == pnl_of(
                    old(self).positions()[i].side,
                    old(self).positions()[i].entry_price,
                    exit_price,
                    old(self).positions()[i].size,
                ),
    {
        let p = match self.portfolio.position(symbol) {
            Some(p) => p,
            None => {
                return Err(
                    TradingError::Risk(
                        "No open position for ".to_owned().concat(symbol),
                    ),
                );
            },
        };
        if !exit_price.is_positive() {
            return Err(TradingError::Validation("Price must be positive".to_owned()));
        }
        let pnl = match compute_pnl(p.side, &p.entry_price, &exit_price, &p.size) {
            Some(x) => x,
            None => {
                return Err(TradingError::Decimal("profit out of decimal range".to_owned()));
            },
        };
        let balance = match self.account_balance.checked_add(&pnl) {
            Some(b) => b,
            None => {
                return Err(TradingError::Decimal("balance out of decimal range".to_owned()));
            },
        };
        let closed = self.portfolio.close_position(symbol, exit_price)?;
        proof {
            let i = choose|i: int|
                0 <= i < old(self).positions().len() && old(self).positions()[i].symbol@ == symbol@
                    && self.portfolio.positions() == old(self).positions().remove(i) && Some(closed)
                    == pnl_of(
                    old(self).positions()[i].side,
                    old(self).positions()[i].entry_price,
                    exit_price,
                    old(self).positions()[i].size,
                );
            assert(old(self).positions()[i] == *p);
            assert(closed == pnl);
        }
        self.account_balance = balance;
        self.update_risk_state()?;
        Ok(closed)
    }

    /// Closes every position at its last price, adding each profit to the
    /// balance, refreshes the risk state and returns `(symbol, exit, profit)`
    /// in the order the positions were opened. Totals out of decimal range
    /// are a decimal error and leave the engine unchanged.
    pub fn liquidate_all(&mut self) -> (r: Result<Vec<(String, Money, Money)>, TradingError>)
        requires
            old(self).wf(),
        ensures
            final(self).wf(),
            final(self).limits() == old(self).limits(),
            final(self).kill() == old(self).kill(),
            final(self).reason() == old(self).reason(),
            r matches Err(e) ==> e is Decimal && final(self).balance() == old(self).balance()
                && final(self).positions() == old(self).positions(),
            ({
                let u = fold_pnl(zero_money(), old(self).positions());
                u is Some && old(self).balance().add_spec(u.unwrap()) is Some && fold_pnl(
                    old(self).book().realized(),
                    old(self).positions(),
                ) is Some ==> r is Ok
            }),
            r matches Ok(v) ==> v@.map_values(|t: (String, Money, Money)| (t.0@, t.1, t.2)) == closing(
                old(self).positions(),
            ) && final(self).positions().len() == 0 && final(self).balance().units()
                == old(self).balance().units() + sum_pnl(old(self).positions()),
    {
        let total = self.portfolio.unrealized_pnl()?;
        let balance = match self.account_balance.checked_add(&total) {
            Some(b) => b,
            None => {
                return Err(TradingError::Decimal("balance out of decimal range".to_owned()));
            },
        };
        let results = self.portfolio.close_all_at_last()?;
        self.account_balance = balance;
        let _ = self.update_risk_state();
        Ok(results)
    }
}

/// Opening positions never lowers the exposure: each adds a positive notional.
pub proof fn lemma_exposure_grows(ps: Seq<Position>, p: Position)
    requires
        p.wf(),
    ensures
        sum_notional(ps.push(p)) > sum_notional(ps),
{
    assert(ps.push(p).drop_last() =~= ps);
    crate::money::lemma_pow10_pos(28);
    let n = p.notional_spec();
    crate::money::lemma_mul_spec_units(p.entry_price, p.size);
    assert(n.units() > 0) by (nonlinear_arith)
        requires
            n.units() * pow10(28) == p.entry_price.units() * p.size.units(),
            p.entry_price.units() > 0,
            p.size.units() > 0,
            pow10(28) > 0,
    {
    }
}

} // verus!
