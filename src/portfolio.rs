//! Positions and the portfolio that holds at most one per symbol.
use crate::error::TradingError;
use crate::money::{Money, round_units, pow10};
use vstd::prelude::*;
use vstd::string::StringExecFns;

verus! {

#[derive(PartialEq, Eq, Structural, Clone, Copy, Debug)]
pub enum PositionSide {
    Long,
    Short,
}

/// Profit of a position: `(last - entry) * size` for a long, the negation for a
/// short, rounded half-to-even to 8 digits; `None` where a step is out of range.
pub open spec fn pnl_of(side: PositionSide, entry: Money, last: Money, size: Money) -> Option<Money> {
    let diff = if side == PositionSide::Long {
        last.sub_spec(entry)
    } else {
        entry.sub_spec(last)
    };
    match diff {
        Some(d) => match d.mul_spec(size) {
            Some(p) => Some(p.round_spec(8)),
            None => None,
        },
        None => None,
    }
}

/// The value of `pnl_of`, in units of 10^-28.
pub open spec fn pnl_units(side: PositionSide, entry: int, last: int, size: int) -> int {
    let diff = if side == PositionSide::Long {
        last - entry
    } else {
        entry - last
    };
    round_units(diff * size / pow10(28), 8)
}

/// One open position.
#[derive(Debug)]
pub struct Position {
    pub symbol: String,
    pub side: PositionSide,
    pub entry_price: Money,
    pub size: Money,
    pub stop_loss: Money,
    pub opened_at: u64,
    pub last_price: Money,
}

impl Position {
    /// Positive prices and size, and a notional and profit that can be computed.
    pub open spec fn wf(&self) -> bool {
        &&& self.entry_price.wf() && self.size.wf() && self.stop_loss.wf() && self.last_price.wf()
        &&& self.entry_price.units() > 0 && self.size.units() > 0
        &&& self.stop_loss.units() > 0 && self.last_price.units() > 0
        &&& self.entry_price.mul_spec(self.size) is Some
        &&& pnl_of(self.side, self.entry_price, self.last_price, self.size) is Some
    }

    pub open spec fn notional_spec(&self) -> Money {
        self.entry_price.mul_spec(self.size).unwrap()
    }

    pub open spec fn pnl_spec(&self) -> Money {
        pnl_of(self.side, self.entry_price, self.last_price, self.size).unwrap()
    }

    /// A position at `entry_price`, last seen at that price. Entry, size and stop
    /// must be positive; a notional out of decimal range is refused.
    pub fn new(
        symbol: String,
        side: PositionSide,
        entry_price: Money,
        size: Money,
        stop_loss: Money,
        opened_at: u64,
    ) -> (r: Result<Position, TradingError>)
        requires
            entry_price.wf(),
            size.wf(),
            stop_loss.wf(),
        ensures
            r matches Err(TradingError::Validation(_)) <==> !(entry_price.units() > 0
                && size.units() > 0 && stop_loss.units() > 0),
            r matches Err(TradingError::Decimal(_)) <==> entry_price.units() > 0 && size.units()
                > 0 && stop_loss.units() > 0 && !(entry_price.mul_spec(size) is Some && pnl_of(
                side,
                entry_price,
                entry_price,
                size,
            ) is Some),
            r is Ok || (r matches Err(TradingError::Validation(_))) || (r matches Err(
                TradingError::Decimal(_),
            )),
            r matches Ok(p) ==> p.wf() && p == (Position {
                symbol,
                side,
                entry_price,
                size,
                stop_loss,
                opened_at,
                last_price: entry_price,
            }),
    {
        if !entry_price.is_positive() || !size.is_positive() || !stop_loss.is_positive() {
            return Err(
                TradingError::Validation(
                    "Entry price, size, and stop loss must be positive".to_owned(),
                ),
            );
        }
        if entry_price.checked_mul(&size).is_none() || compute_pnl(side, &entry_price, &entry_price, &size).is_none() {
            return Err(TradingError::Decimal("position notional out of decimal range".to_owned()));
        }
        Ok(Position { symbol, side, entry_price, size, stop_loss, opened_at, last_price: entry_price })
    }

    /// Moves the last price. A non-positive price is a validation error; a price
    /// whose profit is out of decimal range is a decimal error. Either way the
    /// position is kept.
    pub fn update_price(&mut self, price: Money) -> (r: Result<(), TradingError>)
        requires
            old(self).wf(),
            price.wf(),
        ensures
            final(self).wf(),
            r matches Err(TradingError::Validation(_)) <==> price.units() <= 0,
            r matches Err(TradingError::Decimal(_)) <==> price.units() > 0 && pnl_of(
                old(self).side,
                old(self).entry_price,
                price,
                old(self).size,
            ) is None,
            r is Ok || (r matches Err(TradingError::Validation(_))) || (r matches Err(
                TradingError::Decimal(_),
            )),
            r is Ok ==> *final(self) == (Position { last_price: price, ..*old(self) }),
            r is Err ==> *final(self) == *old(self),
    {
        if !price.is_positive() {
            return Err(TradingError::Validation("Price must be positive".to_owned()));
        }
        if compute_pnl(self.side, &self.entry_price, &price, &self.size).is_none() {
            return Err(TradingError::Decimal("profit out of decimal range".to_owned()));
        }
        self.last_price = price;
        Ok(())
    }

    /// `entry_price * size`, exactly.
    pub fn notional_value(&self) -> (r: Money)
        requires
            self.wf(),
        ensures
            r == self.notional_spec(),
            r.wf(),
            r.units() * pow10(28) == self.entry_price.units() * self.size.units(),
    {
        self.entry_price.checked_mul(&self.size).unwrap()
    }

    /// The profit at the last price, rounded to 8 digits.
    pub fn unrealized_pnl(&self) -> (r: Money)
        requires
            self.wf(),
        ensures
            r == self.pnl_spec(),
            r.wf(),
            r.units() == pnl_units(
                self.side,
                self.entry_price.units(),
                self.last_price.units(),
                self.size.units(),
            ),
    {
        compute_pnl(self.side, &self.entry_price, &self.last_price, &self.size).unwrap()
    }

    fn duplicate(&self) -> (r: Position)
        ensures
            r == *self,
    {
        Position {
            symbol: self.symbol.clone(),
            side: self.side,
            entry_price: self.entry_price,
            size: self.size,
            stop_loss: self.stop_loss,
            opened_at: self.opened_at,
            last_price: self.last_price,
        }
    }
}

/// The profit of a position with these prices and size.
pub fn compute_pnl(side: PositionSide, entry: &Money, last: &Money, size: &Money) -> (r: Option<Money>)
    requires
        entry.wf(),
        last.wf(),
        size.wf(),
    ensures
        r == pnl_of(side, *entry, *last, *size),
        r matches Some(p) ==> p.wf() && p.units() == pnl_units(side, entry.units(), last.units(), size.units()),
{
    let diff = match side {
        PositionSide::Long => last.checked_sub(entry),
        PositionSide::Short => entry.checked_sub(last),
    };
    match diff {
        Some(d) => match d.checked_mul(size) {
            Some(p) => {
                proof {
                    crate::money::lemma_pow10_pos(28);
                    lemma_div_exact(p.units(), d.units() * size.units(), pow10(28));
                }
                Some(p.round_dp(8))
            },
            None => None,
        },
        None => None,
    }
}

proof fn lemma_div_exact(c: int, x: int, p: int)
    requires
        p > 0,
        c * p == x,
    ensures
        c == x / p,
{
    vstd::arithmetic::div_mod::lemma_fundamental_div_mod_converse(x, p, c, 0);
}

/// Closing at the entry price realises exactly zero.
pub proof fn lemma_pnl_at_entry(side: PositionSide, entry: Money, size: Money)
    requires
        entry.wf(),
        size.wf(),
    ensures
        pnl_of(side, entry, entry, size) matches Some(p) ==> p.units() == 0,
{
    let d = entry.sub_spec(entry);
    if d is Some {
        let dm = d.unwrap();
        crate::money::lemma_sub_self(entry);
        if dm.mul_spec(size) is Some {
            let pm = dm.mul_spec(size).unwrap();
            assert(pm.mantissa == 0);
            crate::money::lemma_round_spec_props(pm, 8);
            crate::money::lemma_round_zero(pm, 8);
        }
    }
}

pub open spec fn unique_positions(ps: Seq<Position>) -> bool {
    forall|i: int, j: int|
        0 <= i < ps.len() && 0 <= j < ps.len() && i != j ==> ps[i].symbol@ != ps[j].symbol@
}

pub open spec fn holds(ps: Seq<Position>, sym: Seq<char>) -> bool {
    exists|i: int| 0 <= i < ps.len() && ps[i].symbol@ == sym
}

/// Sum of the notionals, in units of 10^-28.
pub open spec fn sum_notional(ps: Seq<Position>) -> int
    decreases ps.len(),
{
    if ps.len() == 0 {
        0
    } else {
        sum_notional(ps.drop_last()) + ps.last().notional_spec().units()
    }
}

/// Sum of the unrealised profits, in units of 10^-28.
pub open spec fn sum_pnl(ps: Seq<Position>) -> int
    decreases ps.len(),
{
    if ps.len() == 0 {
        0
    } else {
        sum_pnl(ps.drop_last()) + ps.last().pnl_spec().units()
    }
}

/// The running sum of the notionals from `start`, as the decimal arithmetic
/// computes it left to right, if every step fits.
pub open spec fn fold_notional(start: Money, ps: Seq<Position>) -> Option<Money>
    decreases ps.len(),
{
    if ps.len() == 0 {
        Some(start)
    } else {
        match fold_notional(start, ps.drop_last()) {
            Some(t) => t.add_spec(ps.last().notional_spec()),
            None => None,
        }
    }
}

/// The running sum of the profits from `start`, if every step fits.
pub open spec fn fold_pnl(start: Money, ps: Seq<Position>) -> Option<Money>
    decreases ps.len(),
{
    if ps.len() == 0 {
        Some(start)
    } else {
        match fold_pnl(start, ps.drop_last()) {
            Some(t) => t.add_spec(ps.last().pnl_spec()),
            None => None,
        }
    }
}

pub open spec fn zero_money() -> Money {
    Money { mantissa: 0, scale: 0 }
}

proof fn lemma_fold_notional_none(start: Money, ps: Seq<Position>, k: int, j: int)
    requires
        0 <= k <= j <= ps.len(),
        fold_notional(start, ps.subrange(0, k)) is None,
    ensures
        fold_notional(start, ps.subrange(0, j)) is None,
    decreases j - k,
{
    if j > k {
        lemma_fold_notional_none(start, ps, k, j - 1);
        assert(ps.subrange(0, j).drop_last() =~= ps.subrange(0, j - 1));
    }
}

proof fn lemma_fold_pnl_none(start: Money, ps: Seq<Position>, k: int, j: int)
    requires
        0 <= k <= j <= ps.len(),
        fold_pnl(start, ps.subrange(0, k)) is None,
    ensures
        fold_pnl(start, ps.subrange(0, j)) is None,
    decreases j - k,
{
    if j > k {
        lemma_fold_pnl_none(start, ps, k, j - 1);
        assert(ps.subrange(0, j).drop_last() =~= ps.subrange(0, j - 1));
    }
}

/// The open position of `sym` (meaningful where `holds(ps, sym)`).
pub open spec fn position_of(ps: Seq<Position>, sym: Seq<char>) -> Position {
    ps[choose|i: int| 0 <= i < ps.len() && ps[i].symbol@ == sym]
}

/// Open positions, one per symbol in the order they were opened, and the
/// profit realised by those already closed.
#[derive(Debug)]
pub struct Portfolio {
    positions: Vec<Position>,
    realized_pnl: Money,
}

impl Portfolio {
    pub closed spec fn positions(&self) -> Seq<Position> {
        self.positions@
    }

    pub closed spec fn realized(&self) -> Money {
        self.realized_pnl
    }

    pub closed spec fn wf(&self) -> bool {
        &&& unique_positions(self.positions@)
        &&& forall|i: int| 0 <= i < self.positions@.len() ==> (#[trigger] self.positions@[i]).wf()
        &&& self.realized_pnl.wf()
    }

    pub fn new() -> (r: Portfolio)
        ensures
            r.wf(),
            r.positions().len() == 0,
            r.realized().units() == 0,
    {
        Portfolio { positions: Vec::new(), realized_pnl: Money::zero() }
    }

    fn find(&self, symbol: &str) -> (r: Option<usize>)
        requires
            self.wf(),
        ensures
            r matches Some(i) ==> i < self.positions().len() && self.positions()[i as int].symbol@
                == symbol@,
            r is None ==> !holds(self.positions(), symbol@),
    {
        let key = symbol.to_owned();
        let mut i: usize = 0;
        while i < self.positions.len()
            invariant
                i <= self.positions@.len(),
                key@ == symbol@,
                forall|j: int| 0 <= j < i ==> self.positions@[j].symbol@ != symbol@,
            decreases self.positions@.len() - i,
        {
            if self.positions[i].symbol == key {
                return Some(i);
            }
            i = i + 1;
        }
        None
    }

    /// Whether a position is open for `symbol`.
    pub fn has_position(&self, symbol: &str) -> (r: bool)
        requires
            self.wf(),
        ensures
            r == holds(self.positions(), symbol@),
    {
        self.find(symbol).is_some()
    }

    /// The open position for `symbol`, if any.
    pub fn position(&self, symbol: &str) -> (r: Option<&Position>)
        requires
            self.wf(),
        ensures
            r is Some <==> holds(self.positions(), symbol@),
            r matches Some(p) ==> p.symbol@ == symbol@ && p.wf() && forall|i: int|
                0 <= i < self.positions().len() && self.positions()[i].symbol@ == symbol@
                    ==> self.positions()[i] == *p,
    {
        match self.find(symbol) {
            Some(i) => Some(&self.positions[i]),
            None => None,
        }
    }

    /// Opens a position; a symbol that already has one is a risk error, and the
    /// position's own checks apply.
    pub fn open_position(
        &mut self,
        symbol: String,
        side: PositionSide,
        entry_price: Money,
        size: Money,
        stop_loss: Money,
        opened_at: u64,
    ) -> (r: Result<(), TradingError>)
        requires
            old(self).wf(),
            entry_price.wf(),
            size.wf(),
            stop_loss.wf(),
        ensures
            final(self).wf(),
            final(self).realized() == old(self).realized(),
            holds(old(self).positions(), symbol@) ==> (r matches Err(TradingError::Risk(_))),
            !holds(old(self).positions(), symbol@) ==> match Position::new_result(
                symbol,
                side,
                entry_price,
                size,
                stop_loss,
                opened_at,
            ) {
                Some(p) => r is Ok && final(self).positions() == old(self).positions().push(p),
                None => r is Err,
            },
            r is Err ==> final(self).positions() == old(self).positions(),
            r matches Err(e) ==> e is Risk || e is Validation || e is Decimal,
    {
        match self.find(symbol.as_str()) {
            Some(_) => {
                let msg = "Position already open for ".to_owned().concat(symbol.as_str());
                return Err(TradingError::Risk(msg));
            },
            None => {},
        }
        let p = Position::new(symbol, side, entry_price, size, stop_loss, opened_at)?;
        let ghost ps = self.positions@;
        self.positions.push(p);
        proof {
            assert forall|i: int, j: int|
                0 <= i < self.positions@.len() && 0 <= j < self.positions@.len() && i != j implies
                self.positions@[i].symbol@ != self.positions@[j].symbol@ by {
                if i == ps.len() {
                    assert(self.positions@[j] == ps[j]);
                } else if j == ps.len() {
                    assert(self.positions@[i] == ps[i]);
                }
            }
        }
        Ok(())
    }

    /// Closes the position of `symbol` at `exit_price`: its profit is added to
    /// the realised profit and returned, and the position is removed. A missing
    /// position is a risk error; on any error the portfolio is unchanged.
    pub fn close_position(&mut self, symbol: &str, exit_price: Money) -> (r: Result<Money, TradingError>)
        requires
            old(self).wf(),
            exit_price.wf(),
        ensures
            final(self).wf(),
            !holds(old(self).positions(), symbol@) ==> (r matches Err(TradingError::Risk(_))),
            holds(old(self).positions(), symbol@) && exit_price.units() <= 0 ==> (r matches Err(
                TradingError::Validation(_),
            )),
            ({
                let p = position_of(old(self).positions(), symbol@);
                let pnl = pnl_of(p.side, p.entry_price, exit_price, p.size);
                holds(old(self).positions(), symbol@) && exit_price.units() > 0 && pnl is Some
                    && old(self).realized().add_spec(pnl.unwrap()) is Some ==> r is Ok
            }),
            r is Err ==> final(self).positions() == old(self).positions() && final(self).realized()
                == old(self).realized(),
            r matches Ok(pnl) ==> exists|i: int|
                0 <= i < old(self).positions().len() && old(self).positions()[i].symbol@ == symbol@
                    && final(self).positions() == old(self).positions().remove(i) && Some(pnl)
                    == pnl_of(
                    old(self).positions()[i].side,
                    old(self).positions()[i].entry_price,
                    exit_price,
                    old(self).positions()[i].size,
                ) && final(self).realized().units() == old(self).realized().units() + pnl.units(),
    {
        let i = match self.find(symbol) {
            Some(i) => i,
            None => {
                let msg = "No open position for ".to_owned().concat(symbol);
                return Err(TradingError::Risk(msg));
            },
        };
        if !exit_price.is_positive() {
            return Err(TradingError::Validation("Price must be positive".to_owned()));
        }
        let p = &self.positions[i];
        let pnl = match compute_pnl(p.side, &p.entry_price, &exit_price, &p.size) {
            Some(x) => x,
            None => {
                return Err(TradingError::Decimal("profit out of decimal range".to_owned()));
            },
        };
        let total = match self.realized_pnl.checked_add(&pnl) {
            Some(t) => t,
            None => {
                return Err(TradingError::Decimal("realised profit out of decimal range".to_owned()));
            },
        };
        let ghost ps = self.positions@;
        self.positions.remove(i);
        self.realized_pnl = total;
        proof {
            assert forall|a: int, b: int|
                0 <= a < self.positions@.len() && 0 <= b < self.positions@.len() && a != b implies
                self.positions@[a].symbol@ != self.positions@[b].symbol@ by {
                let a2 = if a < i { a } else { a + 1 };
                let b2 = if b < i { b } else { b + 1 };
                assert(self.positions@[a] == ps[a2]);
                assert(self.positions@[b] == ps[b2]);
            }
            assert forall|k: int| 0 <= k < self.positions@.len() implies (#[trigger] self.positions@[k]).wf() by {
                let k2 = if k < i { k } else { k + 1 };
                assert(self.positions@[k] == ps[k2]);
            }
        }
        Ok(pnl)
    }

    /// Moves the last price of `symbol`'s position, if one is open.
    pub fn update_price(&mut self, symbol: &str, price: Money) -> (r: Result<(), TradingError>)
        requires
            old(self).wf(),
            price.wf(),
        ensures
            final(self).wf(),
            final(self).realized() == old(self).realized(),
            final(self).positions().len() == old(self).positions().len(),
            !holds(old(self).positions(), symbol@) ==> r is Ok && final(self).positions()
                == old(self).positions(),
            forall|i: int|
                0 <= i < old(self).positions().len() ==> (#[trigger] final(self).positions()[i]).symbol
                    == old(self).positions()[i].symbol,
            r is Err ==> final(self).positions() == old(self).positions(),
            holds(old(self).positions(), symbol@) && price.units() <= 0 ==> (r matches Err(
                TradingError::Validation(_),
            )),
            ({
                let p = position_of(old(self).positions(), symbol@);
                holds(old(self).positions(), symbol@) && price.units() > 0 && pnl_of(
                    p.side,
                    p.entry_price,
                    price,
                    p.size,
                ) is Some ==> r is Ok
            }),
            r is Ok && holds(old(self).positions(), symbol@) ==> exists|i: int|
                0 <= i < old(self).positions().len() && old(self).positions()[i].symbol@ == symbol@
                    && final(self).positions() == old(self).positions().update(
                    i,
                    Position { last_price: price, ..old(self).positions()[i] },
                ),
    {
        match self.find(symbol) {
            None => Ok(()),
            Some(i) => {
                let mut p = self.positions[i].duplicate();
                p.update_price(price)?;
                let ghost ps = self.positions@;
                self.positions.set(i, p);
                proof {
                    assert forall|a: int, b: int|
                        0 <= a < self.positions@.len() && 0 <= b < self.positions@.len() && a != b
                            implies self.positions@[a].symbol@ != self.positions@[b].symbol@ by {
                        assert(self.positions@[a].symbol == ps[a].symbol);
                        assert(self.positions@[b].symbol == ps[b].symbol);
                    }
                }
                Ok(())
            },
        }
    }

    pub fn open_positions(&self) -> (r: usize)
        ensures
            r == self.positions().len(),
    {
        self.positions.len()
    }

    /// Sum of the notionals of the open positions; a sum out of decimal range
    /// is a decimal error.
    pub fn exposure(&self) -> (r: Result<Money, TradingError>)
        requires
            self.wf(),
        ensures
            r matches Ok(m) ==> m.wf() && m.units() == sum_notional(self.positions()),
            r matches Err(e) ==> e is Decimal,
            r is Ok <==> fold_notional(zero_money(), self.positions()) is Some,
            r matches Ok(m) ==> fold_notional(zero_money(), self.positions()) == Some(m),
    {
        let mut total = Money::zero();
        let mut i: usize = 0;
        while i < self.positions.len()
            invariant
                self.wf(),
                i <= self.positions@.len(),
                total.wf(),
                total.units() == sum_notional(self.positions@.subrange(0, i as int)),
                fold_notional(zero_money(), self.positions@.subrange(0, i as int)) == Some(total),
            decreases self.positions@.len() - i,
        {
            proof {
                assert(self.positions@.subrange(0, i + 1).drop_last() =~= self.positions@.subrange(0, i as int));
                assert(self.positions@[i as int].wf());
            }
            let n = self.positions[i].notional_value();
            match total.checked_add(&n) {
                Some(t) => {
                    total = t;
                },
                None => {
                    proof {
                        lemma_fold_notional_none(zero_money(), self.positions@, i + 1, self.positions@.len() as int);
                        assert(self.positions@.subrange(0, self.positions@.len() as int) =~= self.positions@);
                    }
                    return Err(TradingError::Decimal("exposure out of decimal range".to_owned()));
                },
            }
            i = i + 1;
        }
        assert(self.positions@.subrange(0, i as int) =~= self.positions@);
        Ok(total)
    }

    /// Sum of the unrealised profits; a sum out of decimal range is a decimal error.
    pub fn unrealized_pnl(&self) -> (r: Result<Money, TradingError>)
        requires
            self.wf(),
        ensures
            r matches Ok(m) ==> m.wf() && m.units() == sum_pnl(self.positions()),
            r matches Err(e) ==> e is Decimal,
            r is Ok <==> fold_pnl(zero_money(), self.positions()) is Some,
            r matches Ok(m) ==> fold_pnl(zero_money(), self.positions()) == Some(m),
    {
        let mut total = Money::zero();
        let mut i: usize = 0;
        while i < self.positions.len()
            invariant
                self.wf(),
                i <= self.positions@.len(),
                total.wf(),
                total.units() == sum_pnl(self.positions@.subrange(0, i as int)),
                fold_pnl(zero_money(), self.positions@.subrange(0, i as int)) == Some(total),
            decreases self.positions@.len() - i,
        {
            proof {
                assert(self.positions@.subrange(0, i + 1).drop_last() =~= self.positions@.subrange(0, i as int));
                assert(self.positions@[i as int].wf());
            }
            let n = self.positions[i].unrealized_pnl();
            match total.checked_add(&n) {
                Some(t) => {
                    total = t;
                },
                None => {
                    proof {
                        lemma_fold_pnl_none(zero_money(), self.positions@, i + 1, self.positions@.len() as int);
                        assert(self.positions@.subrange(0, self.positions@.len() as int) =~= self.positions@);
                    }
                    return Err(TradingError::Decimal("profit out of decimal range".to_owned()));
                },
            }
            i = i + 1;
        }
        assert(self.positions@.subrange(0, i as int) =~= self.positions@);
        Ok(total)
    }

    pub fn realized_pnl(&self) -> (r: Money)
        ensures
            r == self.realized(),
    {
        self.realized_pnl
    }
}

impl Position {
    /// What `new` yields on valid inputs, as a value.
    pub open spec fn new_result(
        symbol: String,
        side: PositionSide,
        entry_price: Money,
        size: Money,
        stop_loss: Money,
        opened_at: u64,
    ) -> Option<Position> {
        let p = Position { symbol, side, entry_price, size, stop_loss, opened_at, last_price: entry_price };
        if p.wf() {
            Some(p)
        } else {
            None
        }
    }
}

/// The closing record of each position at its last price: symbol, exit price, profit.
pub open spec fn closing(ps: Seq<Position>) -> Seq<(Seq<char>, Money, Money)> {
    ps.map_values(|p: Position| (p.symbol@, p.last_price, p.pnl_spec()))
}

/// The quantity an external snapshot gives for `sym`, zero where it has none.
pub open spec fn ext_money(ext: Seq<(String, Money)>, sym: Seq<char>) -> Money {
    if exists|i: int| 0 <= i < ext.len() && ext[i].0@ == sym {
        ext[choose|i: int| 0 <= i < ext.len() && ext[i].0@ == sym].1
    } else {
        Money { mantissa: 0, scale: 0 }
    }
}

pub open spec fn unique_external(ext: Seq<(String, Money)>) -> bool {
    forall|i: int, j: int| 0 <= i < ext.len() && 0 <= j < ext.len() && i != j ==> ext[i].0@ != ext[j].0@
}

/// Reconciliation tolerance, 10^-4, in units of 10^-28.
pub open spec fn tolerance() -> int {
    pow10(24)
}

pub open spec fn abs_int(x: int) -> int {
    if x < 0 {
        -x
    } else {
        x
    }
}

pub open spec fn text_of(m: Money) -> Seq<char> {
    crate::money::decimal_text_of(m.mantissa as int, m.scale as int)
}

/// The line reporting a size that differs from the external one.
pub open spec fn break_line(sym: Seq<char>, internal: Money, external: Money) -> Seq<char> {
    "Position break for "@ + sym + ": internal="@ + text_of(internal) + ", external="@ + text_of(
        external,
    )
}

/// The line reporting an external quantity with no position.
pub open spec fn missing_line(sym: Seq<char>, qty: Money) -> Seq<char> {
    "External position not in portfolio: "@ + sym + " qty="@ + text_of(qty)
}

/// The lines for positions whose size differs from the external quantity by
/// more than the tolerance.
pub open spec fn internal_breaks(ps: Seq<Position>, ext: Seq<(String, Money)>) -> Seq<Seq<char>>
    decreases ps.len(),
{
    if ps.len() == 0 {
        Seq::empty()
    } else {
        let rest = internal_breaks(ps.drop_last(), ext);
        let p = ps.last();
        let e = ext_money(ext, p.symbol@);
        if abs_int(p.size.units() - e.units()) > tolerance() {
            rest.push(break_line(p.symbol@, p.size, e))
        } else {
            rest
        }
    }
}

/// The lines for external symbols with a non-zero quantity and no open position.
pub open spec fn external_breaks(ps: Seq<Position>, ext: Seq<(String, Money)>) -> Seq<Seq<char>>
    decreases ext.len(),
{
    if ext.len() == 0 {
        Seq::empty()
    } else {
        let rest = external_breaks(ps, ext.drop_last());
        let e = ext.last();
        if !holds(ps, e.0@) && e.1.units() != 0 {
            rest.push(missing_line(e.0@, e.1))
        } else {
            rest
        }
    }
}

fn break_text(sym: &String, internal: &Money, external: &Money) -> (r: String)
    requires
        internal.wf(),
        external.wf(),
    ensures
        r@ == break_line(sym@, *internal, *external),
{
    let r = "Position break for ".to_owned().concat(sym.as_str()).concat(": internal=").concat(
        internal.to_string().as_str(),
    ).concat(", external=").concat(external.to_string().as_str());
    r
}

fn missing_text(sym: &String, qty: &Money) -> (r: String)
    requires
        qty.wf(),
    ensures
        r@ == missing_line(sym@, *qty),
{
    "External position not in portfolio: ".to_owned().concat(sym.as_str()).concat(" qty=").concat(
        qty.to_string().as_str(),
    )
}

impl Portfolio {
    /// Closes every position at its last price, in the order they were opened,
    /// adding their profits to the realised profit. A realised total out of
    /// decimal range is a decimal error and leaves the portfolio unchanged.
    pub fn close_all_at_last(&mut self) -> (r: Result<Vec<(String, Money, Money)>, TradingError>)
        requires
            old(self).wf(),
        ensures
            final(self).wf(),
            r matches Err(e) ==> e is Decimal && final(self).positions() == old(self).positions()
                && final(self).realized() == old(self).realized(),
            r is Ok <==> fold_pnl(old(self).realized(), old(self).positions()) is Some,
            r matches Ok(v) ==> v@.map_values(|t: (String, Money, Money)| (t.0@, t.1, t.2)) == closing(
                old(self).positions(),
            ) && final(self).positions().len() == 0 && final(self).realized().units()
                == old(self).realized().units() + sum_pnl(old(self).positions()),
    {
        let mut out: Vec<(String, Money, Money)> = Vec::new();
        let mut total = self.realized_pnl;
        let mut i: usize = 0;
        while i < self.positions.len()
            invariant
                self.wf(),
                i <= self.positions@.len(),
                total.wf(),
                total.units() == self.realized_pnl.units() + sum_pnl(self.positions@.subrange(0, i as int)),
                fold_pnl(self.realized_pnl, self.positions@.subrange(0, i as int)) == Some(total),
                out@.map_values(|t: (String, Money, Money)| (t.0@, t.1, t.2)) == closing(
                    self.positions@.subrange(0, i as int),
                ),
            decreases self.positions@.len() - i,
        {
            proof {
                assert(self.positions@.subrange(0, i + 1).drop_last() =~= self.positions@.subrange(0, i as int));
                assert(self.positions@[i as int].wf());
            }
            let p = &self.positions[i];
            let pnl = p.unrealized_pnl();
            match total.checked_add(&pnl) {
                Some(t) => {
                    total = t;
                },
                None => {
                    proof {
                        lemma_fold_pnl_none(self.realized_pnl, self.positions@, i + 1, self.positions@.len() as int);
                        assert(self.positions@.subrange(0, self.positions@.len() as int) =~= self.positions@);
                    }
                    return Err(TradingError::Decimal("realised profit out of decimal range".to_owned()));
                },
            }
            let ghost before = out@;
            out.push((p.symbol.clone(), p.last_price, pnl));
            proof {
                let sub1 = self.positions@.subrange(0, i + 1);
                assert(closing(sub1) =~= closing(self.positions@.subrange(0, i as int)).push(
                    (p.symbol@, p.last_price, pnl),
                ));
                assert(out@.map_values(|t: (String, Money, Money)| (t.0@, t.1, t.2)) =~= before.map_values(
                    |t: (String, Money, Money)| (t.0@, t.1, t.2),
                ).push((p.symbol@, p.last_price, pnl)));
            }
            i = i + 1;
        }
        assert(self.positions@.subrange(0, i as int) =~= self.positions@);
        self.positions = Vec::new();
        self.realized_pnl = total;
        Ok(out)
    }

    fn qty_in(external: &Vec<(String, Money)>, symbol: &String) -> (r: Money)
        requires
            unique_external(external@),
            forall|i: int| 0 <= i < external@.len() ==> (#[trigger] external@[i]).1.wf(),
        ensures
            r.wf(),
            r == ext_money(external@, symbol@),
    {
        let mut i: usize = 0;
        while i < external.len()
            invariant
                unique_external(external@),
                forall|j: int| 0 <= j < external@.len() ==> (#[trigger] external@[j]).1.wf(),
                i <= external@.len(),
                forall|j: int| 0 <= j < i ==> external@[j].0@ != symbol@,
            decreases external@.len() - i,
        {
            if external[i].0 == *symbol {
                proof {
                    let k = choose|k: int| 0 <= k < external@.len() && external@[k].0@ == symbol@;
                    assert(k == i);
                }
                return external[i].1;
            }
            i = i + 1;
        }
        Money::zero()
    }

    /// One line per position whose size differs from the external quantity by
    /// more than 10^-4 (a missing external entry counts as zero), in position
    /// order; then one per external symbol with a non-zero quantity and no
    /// position, in snapshot order.
    pub fn reconcile(&self, external_positions: &Vec<(String, Money)>) -> (r: Vec<String>)
        requires
            self.wf(),
            unique_external(external_positions@),
            forall|i: int| 0 <= i < external_positions@.len() ==> (#[trigger] external_positions@[i]).1.wf(),
        ensures
            r@.map_values(|s: String| s@) == internal_breaks(self.positions(), external_positions@)
                + external_breaks(self.positions(), external_positions@),
    {
        let mut breaks: Vec<String> = Vec::new();
        let tol = Money::new(1, 4);
        proof {
            reveal_with_fuel(pow10, 5);
            crate::money::lemma_pow10_add(4, 24);
        }
        let mut i: usize = 0;
        while i < self.positions.len()
            invariant
                self.wf(),
                unique_external(external_positions@),
                forall|j: int| 0 <= j < external_positions@.len() ==> (#[trigger] external_positions@[j]).1.wf(),
                tol.wf(),
                tol.units() == tolerance(),
                i <= self.positions@.len(),
                breaks@.map_values(|s: String| s@) == internal_breaks(
                    self.positions@.subrange(0, i as int),
                    external_positions@,
                ),
            decreases self.positions@.len() - i,
        {
            let ghost sub = self.positions@.subrange(0, i + 1);
            proof {
                assert(sub.drop_last() =~= self.positions@.subrange(0, i as int));
                assert(self.positions@[i as int].wf());
            }
            let p = &self.positions[i];
            let ext = Self::qty_in(external_positions, &p.symbol);
            let over = match p.size.checked_sub(&ext) {
                Some(d) => d.abs().compare(&tol) > 0,
                None => {
                    proof {
                        crate::money::lemma_sub_overflow_large(p.size, ext);
                    }
                    true
                },
            };
            let ghost before = breaks@;
            if over {
                breaks.push(break_text(&p.symbol, &p.size, &ext));
                assert(breaks@.map_values(|s: String| s@) =~= before.map_values(|s: String| s@).push(
                    break_line(p.symbol@, p.size, ext),
                ));
            }
            i = i + 1;
        }
        assert(self.positions@.subrange(0, i as int) =~= self.positions@);
        let ghost internal = breaks@.map_values(|s: String| s@);
        let mut j: usize = 0;
        while j < external_positions.len()
            invariant
                self.wf(),
                j <= external_positions@.len(),
                forall|q: int| 0 <= q < external_positions@.len() ==> (#[trigger] external_positions@[q]).1.wf(),
                internal == internal_breaks(self.positions@, external_positions@),
                breaks@.map_values(|s: String| s@) == internal + external_breaks(
                    self.positions@,
                    external_positions@.subrange(0, j as int),
                ),
            decreases external_positions@.len() - j,
        {
            proof {
                assert(external_positions@.subrange(0, j + 1).drop_last() =~= external_positions@.subrange(0, j as int));
            }
            let e = &external_positions[j];
            let ghost before = breaks@;
            if !self.has_position(e.0.as_str()) && !e.1.is_zero() {
                breaks.push(missing_text(&e.0, &e.1));
                assert(breaks@.map_values(|s: String| s@) =~= before.map_values(|s: String| s@).push(
                    missing_line(e.0@, e.1),
                ));
            }
            proof {
                assert(internal + external_breaks(self.positions@, external_positions@.subrange(0, j + 1))
                    =~= breaks@.map_values(|s: String| s@));
            }
            j = j + 1;
        }
        assert(external_positions@.subrange(0, j as int) =~= external_positions@);
        breaks
    }
}

} // verus!
