//! Trading signals and the mean-reversion reference strategy.
use crate::config::{StrategyConfig, StrategyType};
use crate::error::TradingError;
use crate::market::PriceEvent;
use crate::money::{pow10, Money};
use vstd::prelude::*;

verus! {

/// What a strategy asks for on a price.
#[derive(PartialEq, Eq, Structural, Clone, Copy, Debug)]
pub enum Signal {
    Buy,
    Sell,
    Hold,
}

/// Sum of the values of a sequence of decimals, in units of 10^-28.
pub open spec fn sum_units(s: Seq<Money>) -> int
    decreases s.len(),
{
    if s.len() == 0 {
        0
    } else {
        sum_units(s.drop_last()) + s.last().units()
    }
}

/// The window's sum as the decimal arithmetic computes it, left to right, if
/// every step fits.
pub open spec fn window_total(s: Seq<Money>) -> Option<Money>
    decreases s.len(),
{
    if s.len() == 0 {
        Some(Money { mantissa: 0, scale: 0 })
    } else {
        match window_total(s.drop_last()) {
            Some(t) => t.add_spec(s.last()),
            None => None,
        }
    }
}

/// Whether every step of the signal's decimal arithmetic fits: the window
/// sum, the price times the window length, their difference, and the
/// threshold times the sum.
pub open spec fn signal_computable(w: Seq<Money>, p: Money, t: Money) -> bool {
    match window_total(w) {
        Some(total) => match p.mul_spec(Money { mantissa: w.len() as i128, scale: 0 }) {
            Some(scaled) => scaled.sub_spec(total) is Some && t.mul_spec(total) is Some,
            None => false,
        },
        None => false,
    }
}

proof fn lemma_total_none_extends(s: Seq<Money>, k: int, j: int)
    requires
        0 <= k <= j <= s.len(),
        window_total(s.subrange(0, k)) is None,
    ensures
        window_total(s.subrange(0, j)) is None,
    decreases j - k,
{
    if j > k {
        lemma_total_none_extends(s, k, j - 1);
        assert(s.subrange(0, j).drop_last() =~= s.subrange(0, j - 1));
    }
}

/// The mean-reversion rule on a window whose values sum to `total` (units),
/// holding `n` prices, for a price `p` and a threshold `t` (units): with
/// mean `m = total / n` and deviation `d = |p - m| / m`, buy below the mean and
/// sell above it when `d > t`.
pub open spec fn reversion_signal(total: int, n: int, p: int, t: int) -> Signal {
    let diff = p * n - total;
    let dev_exceeds = (if diff < 0 { -diff } else { diff }) * pow10(28) > t * total;
    if diff < 0 && dev_exceeds {
        Signal::Buy
    } else if diff > 0 && dev_exceeds {
        Signal::Sell
    } else {
        Signal::Hold
    }
}

/// Buys when the price is below the window mean by more than the threshold,
/// sells when above it by more than the threshold.
#[derive(Debug)]
pub struct MeanReversionStrategy {
    name: String,
    threshold: Money,
    window_size: usize,
    prices: Vec<Money>,
    risk_percentage: Money,
}

impl MeanReversionStrategy {
    pub closed spec fn threshold(&self) -> Money {
        self.threshold
    }

    pub closed spec fn window_size(&self) -> nat {
        self.window_size as nat
    }

    pub closed spec fn window(&self) -> Seq<Money> {
        self.prices@
    }

    pub closed spec fn risk(&self) -> Money {
        self.risk_percentage
    }

    pub closed spec fn wf(&self) -> bool {
        &&& self.threshold.wf()
        &&& 0 < self.threshold.units() < pow10(28)
        &&& self.window_size > 0
        &&& self.prices@.len() <= self.window_size
        &&& forall|i: int|
            0 <= i < self.prices@.len() ==> (#[trigger] self.prices@[i]).wf()
                && self.prices@[i].units() > 0
        &&& self.risk_percentage.wf()
    }

    /// A strategy with threshold in (0, 1), a window of at least one price and a
    /// risk percentage in (0, 100].
    pub fn new(threshold: Money, window_size: usize, risk_percentage: Money) -> (r: Result<
        MeanReversionStrategy,
        TradingError,
    >)
        requires
            threshold.wf(),
            risk_percentage.wf(),
        ensures
            r is Ok <==> 0 < threshold.units() < pow10(28) && window_size > 0 && 0
                < risk_percentage.units() <= 100 * pow10(28),
            r matches Err(e) ==> e is Validation,
            r matches Ok(s) ==> s.wf() && s.threshold() == threshold && s.window_size()
                == window_size && s.window().len() == 0 && s.risk() == risk_percentage,
    {
        let one = Money::from_int(1);
        let hundred = Money::from_int(100);
        if !threshold.is_positive() || threshold.compare(&one) >= 0 {
            return Err(TradingError::Validation("Threshold must be between 0 and 1".to_owned()));
        }
        if window_size == 0 {
            return Err(TradingError::Validation("Window size must be greater than 0".to_owned()));
        }
        if !risk_percentage.is_positive() || risk_percentage.compare(&hundred) > 0 {
            return Err(
                TradingError::Validation("Risk percentage must be between 0 and 100".to_owned()),
            );
        }
        Ok(
            MeanReversionStrategy {
                name: "MeanReversion".to_owned(),
                threshold,
                window_size,
                prices: Vec::new(),
                risk_percentage,
            },
        )
    }

    pub fn name(&self) -> &str {
        self.name.as_str()
    }

    pub fn window_len(&self) -> (r: usize)
        ensures
            r == self.window().len(),
    {
        self.prices.len()
    }

    /// Appends a positive price to the window, dropping the oldest one once the
    /// window is full.
    pub fn push_price(&mut self, price: Money) -> (r: Result<(), TradingError>)
        requires
            old(self).wf(),
            price.wf(),
        ensures
            final(self).wf(),
            final(self).threshold() == old(self).threshold(),
            final(self).window_size() == old(self).window_size(),
            final(self).risk() == old(self).risk(),
            r is Ok <==> price.units() > 0,
            r matches Err(e) ==> e is Validation,
            r is Err ==> final(self).window() == old(self).window(),
            r is Ok ==> final(self).window() == if old(self).window().len() < old(self).window_size() {
                old(self).window().push(price)
            } else {
                old(self).window().push(price).drop_first()
            },
    {
        if !price.is_positive() {
            return Err(TradingError::Validation("Price must be positive".to_owned()));
        }
        let ghost w0 = self.prices@;
        if self.prices.len() >= self.window_size {
            self.prices.remove(0);
            self.prices.push(price);
            assert(self.prices@ =~= w0.push(price).drop_first());
        } else {
            self.prices.push(price);
        }
        Ok(())
    }

    /// The signal for an event: `Hold` until the window is full, then the
    /// mean-reversion rule against the window's mean.
    pub fn signal(&self, event: &PriceEvent) -> (r: Result<Signal, TradingError>)
        requires
            self.wf(),
            event.wf(),
        ensures
            self.window().len() < self.window_size() ==> r == Ok::<Signal, TradingError>(
                Signal::Hold,
            ),
            r matches Ok(s) ==> self.window().len() >= self.window_size() ==> s == reversion_signal(
                sum_units(self.window()),
                self.window().len() as int,
                event.price.units(),
                self.threshold().units(),
            ),
            r matches Err(e) ==> e is Decimal,
            self.window().len() >= self.window_size() ==> (r is Ok <==> signal_computable(
                self.window(),
                event.price,
                self.threshold(),
            )),
    {
        if self.prices.len() < self.window_size {
            return Ok(Signal::Hold);
        }
        let overflow = TradingError::Decimal("decimal overflow in the window mean".to_owned());
        let mut total = Money::zero();
        let mut i: usize = 0;
        while i < self.prices.len()
            invariant
                self.wf(),
                i <= self.prices@.len(),
                self.prices@.len() >= self.window_size,
                overflow is Decimal,
                total.wf(),
                total.units() == sum_units(self.prices@.subrange(0, i as int)),
                window_total(self.prices@.subrange(0, i as int)) == Some(total),
            decreases self.prices@.len() - i,
        {
            proof {
                assert(self.prices@.subrange(0, i + 1).drop_last() =~= self.prices@.subrange(0, i as int));
            }
            match total.checked_add(&self.prices[i]) {
                Some(t) => {
                    total = t;
                },
                None => {
                    proof {
                        lemma_total_none_extends(self.prices@, i + 1, self.prices@.len() as int);
                        assert(self.prices@.subrange(0, self.prices@.len() as int) =~= self.prices@);
                    }
                    return Err(overflow);
                },
            }
            i = i + 1;
        }
        assert(self.prices@.subrange(0, i as int) =~= self.prices@);
        let n = Money::new(self.prices.len() as i128, 0);
        let scaled = match event.price.checked_mul(&n) {
            Some(x) => x,
            None => {
                return Err(overflow);
            },
        };
        let diff = match scaled.checked_sub(&total) {
            Some(x) => x,
            None => {
                return Err(overflow);
            },
        };
        let bound = match self.threshold.checked_mul(&total) {
            Some(x) => x,
            None => {
                return Err(overflow);
            },
        };
        let dev = diff.abs();
        proof {
            let len = self.prices@.len() as int;
            crate::money::lemma_pow10_pos(28);
            lemma_cancel(scaled.units(), event.price.units(), len, pow10(28));
        }
        let exceeds = dev.compare(&bound) > 0;
        proof {
            crate::money::lemma_pow10_pos(28);
            lemma_scaled_cmp(dev.units(), bound.units(), self.threshold.units() * total.units(), pow10(28));
        }
        if diff.is_negative() && exceeds {
            Ok(Signal::Buy)
        } else if diff.is_positive() && exceeds {
            Ok(Signal::Sell)
        } else {
            Ok(Signal::Hold)
        }
    }

    /// Entry at the current price, a stop distance of 2% of it, and the price as
    /// the size hint.
    pub fn get_risk_params(&self, current_price: Money) -> (r: Result<(Money, Money, Money), TradingError>)
        requires
            current_price.wf(),
        ensures
            r is Ok <==> current_price.mul_spec(Money { mantissa: 2, scale: 2 }) is Some,
            r matches Err(e) ==> e is Decimal,
            r matches Ok(t) ==> t.0 == current_price && t.2 == current_price && Some(t.1)
                == current_price.mul_spec(Money { mantissa: 2, scale: 2 }),
    {
        let pct = Money::new(2, 2);
        match current_price.checked_mul(&pct) {
            Some(d) => Ok((current_price, d, current_price)),
            None => Err(TradingError::Decimal("stop distance out of range".to_owned())),
        }
    }
}

proof fn lemma_cancel(c: int, a: int, n: int, p: int)
    requires
        p > 0,
        c * p == a * (n * p),
    ensures
        c == a * n,
{
    assert(c * p == (a * n) * p) by (nonlinear_arith)
        requires c * p == a * (n * p);
    assert(c == a * n) by (nonlinear_arith)
        requires c * p == (a * n) * p, p > 0;
}

proof fn lemma_scaled_cmp(x: int, y: int, z: int, p: int)
    requires
        p > 0,
        y * p == z,
    ensures
        x > y <==> x * p > z,
{
    assert(x > y ==> x * p > y * p) by (nonlinear_arith)
        requires p > 0;
    assert(x <= y ==> x * p <= y * p) by (nonlinear_arith)
        requires p > 0;
}

/// A window holding one price `p` over and over gives `Hold` on `p`, whatever the threshold.
pub proof fn lemma_flat_window_holds(w: Seq<Money>, p: Money, t: int)
    requires
        w.len() > 0,
        t >= 0,
        forall|i: int| 0 <= i < w.len() ==> (#[trigger] w[i]).units() == p.units(),
    ensures
        reversion_signal(sum_units(w), w.len() as int, p.units(), t) == Signal::Hold,
{
    lemma_flat_sum(w, p.units());
}

proof fn lemma_flat_sum(w: Seq<Money>, u: int)
    requires
        forall|i: int| 0 <= i < w.len() ==> (#[trigger] w[i]).units() == u,
    ensures
        sum_units(w) == u * w.len(),
    decreases w.len(),
{
    if w.len() > 0 {
        let w2 = w.drop_last();
        assert forall|i: int| 0 <= i < w2.len() implies (#[trigger] w2[i]).units() == u by {
            assert(w2[i] == w[i]);
        }
        lemma_flat_sum(w2, u);
        assert(u * (w.len() - 1) + u == u * w.len()) by (nonlinear_arith);
    }
}

/// Builds the strategy a configuration names.
pub struct StrategyFactory;

impl StrategyFactory {
    /// A mean-reversion strategy with the configured threshold and window and
    /// the profile's risk per trade; moving average is not available.
    pub fn create_strategy(config: &StrategyConfig) -> (r: Result<MeanReversionStrategy, TradingError>)
        requires
            config.strategy_type matches StrategyType::MeanReversion { threshold, .. } ==> threshold.wf(),
        ensures
            config.strategy_type is MovingAverage ==> (r matches Err(TradingError::Validation(_))),
            r matches Err(e) ==> e is Validation,
            r matches Ok(s) ==> s.wf() && s.window().len() == 0 && match config.strategy_type {
                StrategyType::MeanReversion { threshold, window_size } => s.threshold() == threshold
                    && s.window_size() == window_size && s.risk().units()
                    == crate::config::profile_numbers(config.risk_profile).0 * pow10(28),
                _ => false,
            },
            config.strategy_type matches StrategyType::MeanReversion { threshold, window_size } ==> (
            r is Ok <==> 0 < threshold.units() < pow10(28) && window_size > 0),
    {
        let params = config.get_risk_params();
        match config.strategy_type {
            StrategyType::MeanReversion { threshold, window_size } => {
                proof {
                    crate::money::lemma_pow10_pos(28);
                    let n = crate::config::profile_numbers(config.risk_profile).0;
                    assert(0 < n <= 3);
                    assert(n * pow10(28) <= 100 * pow10(28)) by (nonlinear_arith)
                        requires n <= 3, pow10(28) > 0;
                    assert(n * pow10(28) > 0) by (nonlinear_arith)
                        requires n > 0, pow10(28) > 0;
                }
                MeanReversionStrategy::new(threshold, window_size, params.max_risk_per_trade)
            },
            StrategyType::MovingAverage { .. } => Err(
                TradingError::Validation("MovingAverage strategy not implemented yet".to_owned()),
            ),
        }
    }
}

} // verus!
