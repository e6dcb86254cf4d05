//! Orders, fills, the fill simulator and the paper-trading execution engine.
use crate::bus::EventBus;
use crate::error::TradingError;
use crate::event::Event;
use crate::market::wall_clock_ms;
use crate::money::{pow10, quot_units, round_half_even, Money};
use crate::portfolio::{holds, pnl_of, position_of, Position, PositionSide};
use crate::risk::{size_spec, stop_spec, PortfolioLimits, PositionSizer, RiskEngine, StopLossManager};
use crate::strategy::Signal;
use vstd::prelude::*;

verus! {

#[derive(PartialEq, Eq, Structural, Clone, Copy, Debug)]
pub enum OrderSide {
    Buy,
    Sell,
}

#[derive(PartialEq, Eq, Structural, Clone, Copy, Debug)]
pub enum OrderType {
    Market,
    Limit,
}

#[derive(PartialEq, Eq, Structural, Clone, Copy, Debug)]
pub enum TimeInForce {
    Day,
    Gtc,
    Ioc,
    Fok,
}

#[derive(PartialEq, Eq, Structural, Clone, Copy, Debug)]
pub enum OrderStatus {
    New,
    PartiallyFilled,
    Filled,
    Cancelled,
    Rejected,
}

impl OrderStatus {
    /// Filled, cancelled and rejected orders never change again.
    pub open spec fn terminal(self) -> bool {
        self == OrderStatus::Filled || self == OrderStatus::Cancelled || self == OrderStatus::Rejected
    }

    pub fn is_terminal(&self) -> (r: bool)
        ensures
            r == self.terminal(),
    {
        match self {
            OrderStatus::Filled | OrderStatus::Cancelled | OrderStatus::Rejected => true,
            _ => false,
        }
    }
}

#[derive(Debug)]
pub struct Order {
    pub id: u64,
    pub symbol: String,
    pub side: OrderSide,
    pub order_type: OrderType,
    pub tif: TimeInForce,
    pub quantity: Money,
    pub price: Option<Money>,
    pub filled_quantity: Money,
    pub status: OrderStatus,
    pub created_at: u64,
    pub updated_at: u64,
}

impl Order {
    /// A positive quantity, filled between zero and the quantity.
    pub open spec fn wf(&self) -> bool {
        &&& self.quantity.wf() && self.filled_quantity.wf()
        &&& self.quantity.units() > 0
        &&& 0 <= self.filled_quantity.units() <= self.quantity.units()
        &&& self.price matches Some(p) ==> p.wf()
    }
}

/// One execution slice of an order.
#[derive(Debug)]
pub struct Fill {
    pub order_id: u64,
    pub symbol: String,
    pub price: Money,
    pub quantity: Money,
    pub fee: Money,
    pub timestamp: u64,
}

impl Fill {
    fn duplicate(&self) -> (r: Fill)
        ensures
            r == *self,
    {
        Fill {
            order_id: self.order_id,
            symbol: self.symbol.clone(),
            price: self.price,
            quantity: self.quantity,
            fee: self.fee,
            timestamp: self.timestamp,
        }
    }
}

/// Fee rate per fill: 0.0005 of the traded value.
pub open spec fn fee_rate() -> Money {
    Money { mantissa: 5, scale: 4 }
}

/// `price * quantity * 0.0005`, rounded to 8 digits.
pub open spec fn fee_spec(price: Money, qty: Money) -> Option<Money> {
    match price.mul_spec(qty) {
        Some(v) => match v.mul_spec(fee_rate()) {
            Some(f) => Some(f.round_spec(8)),
            None => None,
        },
        None => None,
    }
}

/// The split of a quantity: all of it when at most 1, else half (rounded to 8
/// digits) and the rest.
pub open spec fn split_spec(qty: Money) -> Option<(Money, Money)> {
    if qty.units() > pow10(28) {
        match qty.div_spec(Money { mantissa: 2, scale: 0 }, 8) {
            Some(h) => match qty.sub_spec(h) {
                Some(rest) => Some((h, rest)),
                None => None,
            },
            None => None,
        }
    } else {
        Some((qty, Money { mantissa: 0, scale: 0 }))
    }
}

/// Whether the split and the fee of every positive slice fit in decimal range.
pub open spec fn simulate_ok(price: Money, qty: Money) -> bool {
    match split_spec(qty) {
        Some(sp) => (sp.0.units() > 0 ==> fee_spec(price, sp.0) is Some) && (sp.1.units() > 0
            ==> fee_spec(price, sp.1) is Some),
        None => false,
    }
}

/// How many fills the simulator gives for a quantity.
pub open spec fn fill_count(qty: Money) -> nat {
    match split_spec(qty) {
        Some(sp) => (if sp.0.units() > 0 { 1nat } else { 0nat }) + (if sp.1.units() > 0 { 1nat } else { 0nat }),
        None => 0,
    }
}

/// Sum of the quantities of a list of fills, in units of 10^-28.
pub open spec fn fills_total(fs: Seq<Fill>) -> int
    decreases fs.len(),
{
    if fs.len() == 0 {
        0
    } else {
        fills_total(fs.drop_last()) + fs.last().quantity.units()
    }
}

/// Sum of the quantities of the fills of order `id`, in units of 10^-28.
pub open spec fn order_fill_total(fs: Seq<Fill>, id: u64) -> int
    decreases fs.len(),
{
    if fs.len() == 0 {
        0
    } else {
        order_fill_total(fs.drop_last(), id) + if fs.last().order_id == id {
            fs.last().quantity.units()
        } else {
            0
        }
    }
}

pub struct FillSimulator;

impl FillSimulator {
    /// Deterministic fills: one for the whole quantity when it is at most 1,
    /// else two, of half (rounded to 8 digits) and the rest. A slice that is
    /// not positive is left out. Each fee is `price * slice * 0.0005`, rounded
    /// to 8 digits; the timestamp is the wall clock, or 0 when it cannot be read.
    pub fn simulate(order_id: u64, symbol: &str, price: Money, quantity: Money) -> (r: Result<Vec<Fill>, TradingError>)
        requires
            price.wf(),
            quantity.wf(),
        ensures
            r matches Err(e) ==> e is Decimal,
            r is Ok <==> simulate_ok(price, quantity),
            r matches Ok(fs) ==> {
                &&& forall|i: int| 0 <= i < fs@.len() ==> {
                    let f = #[trigger] fs@[i];
                    &&& f.order_id == order_id && f.symbol@ == symbol@ && f.price == price
                    &&& f.quantity.wf() && f.quantity.units() > 0
                    &&& fee_spec(price, f.quantity) == Some(f.fee)
                }
                &&& split_spec(quantity) matches Some(sp) && fs@.map_values(|f: Fill| f.quantity) == (
                    if sp.0.units() > 0 { seq![sp.0] } else { seq![] }) + (if sp.1.units() > 0 {
                    seq![sp.1]
                } else {
                    seq![]
                })
            },
            quantity.units() > 0 ==> (r matches Ok(fs) ==> fills_total(fs@) == quantity.units()),
            quantity.units() <= 0 ==> (r matches Ok(fs) ==> fs@.len() == 0),
    {
        let timestamp = match wall_clock_ms() {
            Some(t) => t,
            None => 0,
        };
        let one = Money::new(1, 0);
        let (first, second) = if quantity.compare(&one) > 0 {
            let two = Money::new(2, 0);
            proof {
                crate::money::lemma_pow10_pos(28);
            }
            let half = match quantity.div_round(&two, 8) {
                Some(h) => h,
                None => {
                    return Err(TradingError::Decimal("fill split out of decimal range".to_owned()));
                },
            };
            let rest = match quantity.checked_sub(&half) {
                Some(x) => x,
                None => {
                    return Err(TradingError::Decimal("fill split out of decimal range".to_owned()));
                },
            };
            proof {
                lemma_halves_positive(quantity.units(), half.units());
            }
            (half, rest)
        } else {
            (quantity, Money::zero())
        };
        assert(split_spec(quantity) == Some((first, second)));
        assert(first.wf() && second.wf());
        assert(quantity.units() > 0 ==> first.units() > 0);
        assert(quantity.units() > 0 ==> first.units() + second.units() == quantity.units());
        assert(quantity.units() <= 0 ==> first.units() <= 0 && second.units() == 0);
        assert(quantity.units() > 0 ==> second.units() > 0 || second.units() == 0);
        let rate = Money::new(5, 4);
        let mut fills: Vec<Fill> = Vec::new();
        if first.is_positive() {
            let fee = match fee_of(&price, &first, &rate) {
                Some(f) => f,
                None => {
                    return Err(TradingError::Decimal("fee out of decimal range".to_owned()));
                },
            };
            fills.push(
                Fill { order_id, symbol: symbol.to_owned(), price, quantity: first, fee, timestamp },
            );
        }
        if second.is_positive() {
            let fee = match fee_of(&price, &second, &rate) {
                Some(f) => f,
                None => {
                    return Err(TradingError::Decimal("fee out of decimal range".to_owned()));
                },
            };
            fills.push(
                Fill { order_id, symbol: symbol.to_owned(), price, quantity: second, fee, timestamp },
            );
        }
        proof {
            let q = fills@.map_values(|f: Fill| f.quantity);
            assert(q =~= (if first.units() > 0 { seq![first] } else { seq![] }) + (if second.units() > 0 {
                seq![second]
            } else {
                seq![]
            }));
            if fills@.len() == 2 {
                assert(fills@.drop_last().drop_last() =~= Seq::<Fill>::empty());
                reveal_with_fuel(fills_total, 3);
                assert(fills_total(fills@) == fills@[0].quantity.units() + fills@[1].quantity.units());
            } else if fills@.len() == 1 {
                assert(fills@.drop_last() =~= Seq::<Fill>::empty());
                reveal_with_fuel(fills_total, 2);
                assert(fills_total(fills@) == fills@[0].quantity.units());
            }
        }
        Ok(fills)
    }
}

fn fee_of(price: &Money, qty: &Money, rate: &Money) -> (r: Option<Money>)
    requires
        price.wf(),
        qty.wf(),
        *rate == fee_rate(),
    ensures
        r == fee_spec(*price, *qty),
{
    match price.checked_mul(qty) {
        Some(v) => match v.checked_mul(rate) {
            Some(f) => Some(f.round_dp(8)),
            None => None,
        },
        None => None,
    }
}

/// Half of a quantity above 1, rounded to 8 digits, and the rest are both positive.
proof fn lemma_halves_positive(q: int, h: int)
    requires
        q > pow10(28),
        h == quot_units(q, 2 * pow10(28), 8),
    ensures
        h > 0,
        q - h > 0,
{
    let ten8 = pow10(8);
    let ten20 = pow10(20);
    let ten28 = pow10(28);
    crate::money::lemma_pow10_add(8, 20);
    crate::money::lemma_pow10_pos(20);
    crate::money::lemma_pow10_mono(1, 8);
    reveal_with_fuel(pow10, 2);
    assert(ten8 >= 10);
    let n = q * ten8;
    let d = 2 * ten28;
    assert(ten28 == ten8 * ten20);
    assert(d > 0) by (nonlinear_arith)
        requires d == 2 * ten28, ten28 == ten8 * ten20, ten8 >= 10, ten20 >= 1;
    crate::money::lemma_div_bounds(n, d);
    let t = n / d;
    let k = round_half_even(n, d);
    assert(t <= k <= t + 1);
    assert(n >= d) by (nonlinear_arith)
        requires n == q * ten8, q > ten28, d == 2 * ten28, ten8 >= 10, ten28 >= 1;
    assert(t >= 1) by (nonlinear_arith)
        requires n == d * t + n % d, 0 <= n % d < d, n >= d;
    assert(h == k * ten20);
    assert(h > 0) by (nonlinear_arith)
        requires h == k * ten20, k >= 1, ten20 >= 1;
    // t * 2 * ten20 <= q, from t * d <= n and d = 2 * ten8 * ten20
    assert(t * 2 * ten20 * ten8 <= q * ten8) by (nonlinear_arith)
        requires n == d * t + n % d, 0 <= n % d, n == q * ten8, d == 2 * ten28, ten28 == ten8 * ten20;
    assert(t * 2 * ten20 <= q) by (nonlinear_arith)
        requires t * 2 * ten20 * ten8 <= q * ten8, ten8 >= 10;
    assert(h <= t * ten20 + ten20) by (nonlinear_arith)
        requires h == k * ten20, k <= t + 1, ten20 >= 1;
    assert(q >= 10 * ten20) by (nonlinear_arith)
        requires q > ten28, ten28 == ten8 * ten20, ten8 >= 10, ten20 >= 1;
    assert(t * 2 * ten20 == 2 * (t * ten20)) by (nonlinear_arith);
}

/// The engine's record that a position was opened on a signal.
#[derive(Debug)]
pub struct Trade {
    pub symbol: String,
    pub signal: Signal,
    pub entry_price: Money,
    pub position_size: Money,
    pub stop_loss: Money,
    pub timestamp: u64,
}

impl Trade {
    fn duplicate(&self) -> (r: Trade)
        ensures
            r == *self,
    {
        Trade {
            symbol: self.symbol.clone(),
            signal: self.signal,
            entry_price: self.entry_price,
            position_size: self.position_size,
            stop_loss: self.stop_loss,
            timestamp: self.timestamp,
        }
    }
}

/// Risk per trade used for sizing, in percent.
pub const RISK_PER_TRADE_PCT: i64 = 2;

/// Orders are numbered from 1 in submission order; `orders[i]` has id `i + 1`.
pub open spec fn orders_wf(orders: Seq<Order>, fills: Seq<Fill>) -> bool {
    &&& forall|i: int| 0 <= i < orders.len() ==> (#[trigger] orders[i]).id == i + 1 && orders[i].wf()
    &&& forall|i: int| 0 <= i < orders.len() ==> !(#[trigger] orders[i]).status.terminal()
        ==> orders[i].filled_quantity.units() == 0
    &&& forall|i: int| 0 <= i < orders.len() ==> (#[trigger] orders[i]).status != OrderStatus::PartiallyFilled
    &&& forall|i: int| 0 <= i < orders.len() && (#[trigger] orders[i]).status == OrderStatus::Filled
        ==> orders[i].filled_quantity.units() == orders[i].quantity.units()
    &&& forall|k: int| 0 <= k < fills.len() ==> 1 <= (#[trigger] fills[k]).order_id <= orders.len()
    &&& forall|i: int|
        0 <= i < orders.len() ==> order_fill_total(fills, (#[trigger] orders[i]).id)
            == orders[i].filled_quantity.units()
}

/// Terminal orders are left as they were.
pub open spec fn terminal_kept(old_orders: Seq<Order>, new_orders: Seq<Order>) -> bool {
    &&& old_orders.len() <= new_orders.len()
    &&& forall|i: int|
        0 <= i < old_orders.len() && (#[trigger] old_orders[i]).status.terminal() ==> new_orders[i]
            == old_orders[i]
}

/// Paper-trading execution: orders, fills and trades, gated by the risk engine,
/// with every fact published on the engine's bus.
#[derive(Debug)]
pub struct ExecutionEngine {
    risk_engine: RiskEngine,
    trades: Vec<Trade>,
    event_bus: EventBus,
    orders: Vec<Order>,
    fills: Vec<Fill>,
    next_order_id: u64,
}

impl ExecutionEngine {
    pub closed spec fn risk(&self) -> RiskEngine {
        self.risk_engine
    }

    pub closed spec fn bus(&self) -> EventBus {
        self.event_bus
    }

    pub closed spec fn order_list(&self) -> Seq<Order> {
        self.orders@
    }

    pub closed spec fn fill_list(&self) -> Seq<Fill> {
        self.fills@
    }

    pub closed spec fn trade_list(&self) -> Seq<Trade> {
        self.trades@
    }

    pub closed spec fn wf(&self) -> bool {
        &&& self.risk_engine.wf()
        &&& self.event_bus.wf()
        &&& orders_wf(self.orders@, self.fills@)
        &&& self.next_order_id == self.orders@.len() + 1
        &&& self.risk_engine.positions().len() <= self.risk_engine.limits().max_open_positions
    }

    pub fn new(initial_balance: Money, portfolio_limits: PortfolioLimits, event_bus: EventBus) -> (r: Result<
        ExecutionEngine,
        TradingError,
    >)
        requires
            initial_balance.wf(),
            portfolio_limits.wf(),
            event_bus.wf(),
        ensures
            r is Err <==> initial_balance.units() <= 0,
            r matches Err(e) ==> e is Validation,
            r matches Ok(e) ==> e.wf() && e.order_list().len() == 0 && e.fill_list().len() == 0
                && e.trade_list().len() == 0 && e.bus() == event_bus && e.risk().balance()
                == initial_balance && e.risk().positions().len() == 0 && !e.risk().kill()
                && e.risk().limits() == portfolio_limits,
    {
        let risk_engine = RiskEngine::new(initial_balance, portfolio_limits)?;
        Ok(
            ExecutionEngine {
                risk_engine,
                trades: Vec::new(),
                event_bus,
                orders: Vec::new(),
                fills: Vec::new(),
                next_order_id: 1,
            },
        )
    }

    /// Registers an order, numbered next, and publishes `OrderSubmitted`.
    pub fn submit_order(
        &mut self,
        symbol: String,
        side: OrderSide,
        order_type: OrderType,
        tif: TimeInForce,
        quantity: Money,
        price: Option<Money>,
    ) -> (r: Result<u64, TradingError>)
        requires
            old(self).wf(),
            quantity.wf(),
            price matches Some(p) ==> p.wf(),
        ensures
            final(self).wf(),
            final(self).risk() == old(self).risk(),
            final(self).fill_list() == old(self).fill_list(),
            final(self).trade_list() == old(self).trade_list(),
            terminal_kept(old(self).order_list(), final(self).order_list()),
            quantity.units() <= 0 ==> (r matches Err(TradingError::Validation(_))) && *final(self)
                == *old(self),
            r is Err ==> final(self).order_list().len() <= old(self).order_list().len() + 1,
            r matches Err(e) ==> !(e is Execution),
            r matches Ok(id) ==> {
                let o = final(self).order_list().last();
                &&& id == old(self).order_list().len() + 1
                &&& final(self).order_list().len() == id
                &&& final(self).order_list().drop_last() == old(self).order_list()
                &&& o.id == id && o.symbol == symbol && o.side == side && o.order_type == order_type
                    && o.tif == tif && o.quantity == quantity && o.price == price
                    && o.filled_quantity.units() == 0 && o.status == OrderStatus::New
                &&& final(self).bus().published() == old(self).bus().published().push(
                    Event::OrderSubmitted {
                        order_id: id,
                        symbol,
                        side: if side == OrderSide::Buy { Signal::Buy } else { Signal::Sell },
                        quantity,
                        price,
                    },
                )
            },
    {
        if !quantity.is_positive() {
            return Err(TradingError::Validation("Order quantity must be positive".to_owned()));
        }
        let now = match wall_clock_ms() {
            Some(t) => t,
            None => {
                return Err(TradingError::Time("system clock is before the Unix epoch".to_owned()));
            },
        };
        self.submit_order_at(symbol, side, order_type, tif, quantity, price, now)
    }

    /// Registers an order stamped `now`, numbered next, and publishes
    /// `OrderSubmitted`.
    pub fn submit_order_at(
        &mut self,
        symbol: String,
        side: OrderSide,
        order_type: OrderType,
        tif: TimeInForce,
        quantity: Money,
        price: Option<Money>,
        now: u64,
    ) -> (r: Result<u64, TradingError>)
        requires
            old(self).wf(),
            quantity.wf(),
            price matches Some(p) ==> p.wf(),
        ensures
            final(self).wf(),
            final(self).risk() == old(self).risk(),
            final(self).fill_list() == old(self).fill_list(),
            final(self).trade_list() == old(self).trade_list(),
            terminal_kept(old(self).order_list(), final(self).order_list()),
            quantity.units() <= 0 ==> (r matches Err(TradingError::Validation(_))) && *final(self)
                == *old(self),
            r is Err ==> final(self).order_list().len() <= old(self).order_list().len() + 1,
            r matches Err(e) ==> !(e is Execution),
            quantity.units() > 0 && old(self).order_list().len() + 1 < u64::MAX
                && old(self).bus().counters()[4] < u64::MAX ==> r is Ok,
            r is Ok ==> final(self).order_list().last().created_at == now,
            final(self).bus().counters() == if r is Ok {
                old(self).bus().counters().update(4, (old(self).bus().counters()[4] + 1) as u64)
            } else {
                old(self).bus().counters()
            },
            r matches Ok(id) ==> {
                let o = final(self).order_list().last();
                &&& id == old(self).order_list().len() + 1
                &&& final(self).order_list().len() == id
                &&& final(self).order_list().drop_last() == old(self).order_list()
                &&& o.id == id && o.symbol == symbol && o.side == side && o.order_type == order_type
                    && o.tif == tif && o.quantity == quantity && o.price == price
                    && o.filled_quantity.units() == 0 && o.status == OrderStatus::New
                &&& final(self).bus().published() == old(self).bus().published().push(
                    Event::OrderSubmitted {
                        order_id: id,
                        symbol,
                        side: if side == OrderSide::Buy { Signal::Buy } else { Signal::Sell },
                        quantity,
                        price,
                    },
                )
            },
    {
        if !quantity.is_positive() {
            return Err(TradingError::Validation("Order quantity must be positive".to_owned()));
        }
        let timestamp = now;
        if self.next_order_id == u64::MAX {
            return Err(TradingError::Validation("order ids exhausted".to_owned()));
        }
        let order_id = self.next_order_id;
        self.next_order_id = self.next_order_id + 1;
        let ghost os = self.orders@;
        self.orders.push(
            Order {
                id: order_id,
                symbol: symbol.clone(),
                side,
                order_type,
                tif,
                quantity,
                price,
                filled_quantity: Money::zero(),
                status: OrderStatus::New,
                created_at: timestamp,
                updated_at: timestamp,
            },
        );
        proof {
            assert(self.orders@.drop_last() =~= os);
            lemma_fill_total_absent(self.fills@, order_id);
            assert forall|i: int| 0 <= i < self.orders@.len() implies order_fill_total(
                self.fills@,
                (#[trigger] self.orders@[i]).id,
            ) == self.orders@[i].filled_quantity.units() by {
                if i < os.len() {
                    assert(self.orders@[i] == os[i]);
                }
            }
        }
        let signal = match side {
            OrderSide::Buy => Signal::Buy,
            OrderSide::Sell => Signal::Sell,
        };
        self.event_bus.publish(
            Event::OrderSubmitted { order_id, symbol, side: signal, quantity, price },
        )?;
        Ok(order_id)
    }

    /// Cancels an order that exists and is not terminal; publishes `OrderCancelled`.
    pub fn cancel_order(&mut self, order_id: u64) -> (r: Result<(), TradingError>)
        requires
            old(self).wf(),
        ensures
            final(self).wf(),
            final(self).risk() == old(self).risk(),
            final(self).fill_list() == old(self).fill_list(),
            terminal_kept(old(self).order_list(), final(self).order_list()),
            final(self).order_list().len() == old(self).order_list().len(),
            !(1 <= order_id <= old(self).order_list().len()) ==> (r matches Err(
                TradingError::Execution(_),
            )) && *final(self) == *old(self),
            1 <= order_id <= old(self).order_list().len() && old(self).order_list()[order_id - 1].status.terminal()
                ==> (r matches Err(TradingError::Execution(_))) && *final(self) == *old(self),
            r is Ok ==> 1 <= order_id <= old(self).order_list().len() && final(self).order_list()
                == old(self).order_list().update(
                order_id - 1,
                Order { status: OrderStatus::Cancelled, ..old(self).order_list()[order_id - 1] },
            ),
    {
        if order_id == 0 || order_id as u128 > self.orders.len() as u128 {
            return Err(TradingError::Execution("Order not found".to_owned()));
        }
        let i = (order_id - 1) as usize;
        if self.orders[i].status.is_terminal() {
            return Err(TradingError::Execution("Order already closed".to_owned()));
        }
        let ghost os = self.orders@;
        let sym = self.orders[i].symbol.clone();
        let mut o = self.orders.remove(i);
        o.status = OrderStatus::Cancelled;
        self.orders.insert(i, o);
        proof {
            assert(self.orders@ =~= os.update(i as int, Order { status: OrderStatus::Cancelled, ..os[i as int] }));
            assert forall|k: int| 0 <= k < self.orders@.len() implies order_fill_total(
                self.fills@,
                (#[trigger] self.orders@[k]).id,
            ) == self.orders@[k].filled_quantity.units() by {
                assert(self.orders@[k].id == os[k].id);
            }
        }
        self.event_bus.publish(Event::OrderCancelled { order_id, symbol: sym })?;
        Ok(())
    }

    /// Changes the quantity and price of an order that exists and is not
    /// terminal. Publishes nothing.
    pub fn replace_order(&mut self, order_id: u64, new_qty: Money, new_price: Option<Money>) -> (r: Result<
        (),
        TradingError,
    >)
        requires
            old(self).wf(),
            new_qty.wf(),
            new_price matches Some(p) ==> p.wf(),
        ensures
            final(self).wf(),
            final(self).risk() == old(self).risk(),
            final(self).bus() == old(self).bus(),
            final(self).fill_list() == old(self).fill_list(),
            terminal_kept(old(self).order_list(), final(self).order_list()),
            final(self).order_list().len() == old(self).order_list().len(),
            !(1 <= order_id <= old(self).order_list().len()) ==> (r matches Err(
                TradingError::Execution(_),
            )) && *final(self) == *old(self),
            1 <= order_id <= old(self).order_list().len() && new_qty.units() <= 0 ==> (r matches Err(
                TradingError::Validation(_),
            )) && *final(self) == *old(self),
            1 <= order_id <= old(self).order_list().len() && new_qty.units() > 0 && old(self).order_list()[order_id
                - 1].status.terminal() ==> (r matches Err(TradingError::Execution(_))) && *final(self)
                == *old(self),
            r is Ok ==> 1 <= order_id <= old(self).order_list().len() && {
                let o = old(self).order_list()[order_id - 1];
                let n = final(self).order_list()[order_id - 1];
                &&& n.quantity == new_qty && n.price == new_price
                &&& n.id == o.id && n.symbol == o.symbol && n.side == o.side && n.status == o.status
                    && n.filled_quantity == o.filled_quantity
                &&& forall|k: int|
                    0 <= k < old(self).order_list().len() && k != order_id - 1 ==> final(self).order_list()[k]
                        == old(self).order_list()[k]
            },
    {
        if order_id == 0 || order_id as u128 > self.orders.len() as u128 {
            return Err(TradingError::Execution("Order not found".to_owned()));
        }
        let i = (order_id - 1) as usize;
        if !new_qty.is_positive() {
            return Err(TradingError::Validation("Order quantity must be positive".to_owned()));
        }
        if self.orders[i].status.is_terminal() {
            return Err(TradingError::Execution("Order already closed".to_owned()));
        }
        let updated_at = match wall_clock_ms() {
            Some(t) => t,
            None => {
                return Err(TradingError::Time("system clock is before the Unix epoch".to_owned()));
            },
        };
        let ghost os = self.orders@;
        let mut o = self.orders.remove(i);
        o.quantity = new_qty;
        o.price = new_price;
        o.updated_at = updated_at;
        self.orders.insert(i, o);
        proof {
            assert forall|k: int| 0 <= k < self.orders@.len() implies order_fill_total(
                self.fills@,
                (#[trigger] self.orders@[k]).id,
            ) == self.orders@[k].filled_quantity.units() by {
                if k != i {
                    assert(self.orders@[k] == os[k]);
                }
            }
        }
        Ok(())
    }
}

impl ExecutionEngine {
    /// Fills the order just submitted: records each fill, sets the filled
    /// quantity and status, publishes `OrderFilled` per fill, and, when
    /// something was filled, records the trade, opens the position and
    /// publishes `TradeExecuted`.
    fn process_fills(
        &mut self,
        order_id: u64,
        entry_price: Money,
        stop_loss: Money,
        side: PositionSide,
        signal: Signal,
        now: u64,
    ) -> (r: Result<Option<Trade>, TradingError>)
        requires
            old(self).wf(),
            entry_price.wf(),
            stop_loss.wf(),
            order_id == old(self).order_list().len(),
            order_id >= 1,
            old(self).order_list().last().status == OrderStatus::New,
            old(self).risk().positions().len() < old(self).risk().limits().max_open_positions,
            !old(self).risk().kill(),
        ensures
            final(self).wf(),
            terminal_kept(old(self).order_list(), final(self).order_list()),
            final(self).order_list().len() == old(self).order_list().len(),
            final(self).risk().kill() == old(self).risk().kill(),
            r matches Err(e) ==> !(e is Execution),
            r matches Ok(x) ==> x is Some,
            ({
                let o = old(self).order_list().last();
                let c = old(self).bus().counters();
                simulate_ok(entry_price, o.quantity) && c[5] + fill_count(o.quantity) <= u64::MAX
                    && c[2] < u64::MAX && !holds(old(self).risk().positions(), o.symbol@)
                    && Position::new_result(o.symbol, side, entry_price, o.quantity, stop_loss, now)
                    is Some ==> r is Ok
            }),
            r matches Ok(Some(t)) ==> {
                let o = old(self).order_list().last();
                &&& t.symbol == o.symbol && t.signal == signal && t.entry_price == entry_price
                    && t.stop_loss == stop_loss && t.timestamp == now
                &&& t.position_size == o.quantity
                &&& final(self).order_list().last().status == OrderStatus::Filled
                &&& final(self).risk().positions() == old(self).risk().positions().push(
                    Position {
                        symbol: o.symbol,
                        side,
                        entry_price,
                        size: t.position_size,
                        stop_loss,
                        opened_at: t.timestamp,
                        last_price: entry_price,
                    },
                )
                &&& final(self).trade_list() == old(self).trade_list().push(t)
            },
    {
        let idx = self.orders.len() - 1;
        let quantity = self.orders[idx].quantity;
        let symbol = self.orders[idx].symbol.clone();
        proof {
            assert(self.orders@[idx as int].wf());
        }
        let fills = FillSimulator::simulate(order_id, symbol.as_str(), entry_price, quantity)?;
        assert(quantity.units() > 0);
        let ghost start = *self;
        assert(start.orders@ == old(self).orders@);
        assert(idx as int == old(self).orders@.len() - 1);
        let filled_qty = quantity;
        proof {
            let q = fills@.map_values(|f: Fill| f.quantity);
            assert(q.len() == fills@.len());
            assert(fills@.len() == fill_count(quantity));
        }
        assert(filled_qty.units() == quantity.units());
        let ghost fills0 = self.fills@;
        let ghost orders0 = self.orders@;
        let mut k: usize = 0;
        while k < fills.len()
            invariant
                k <= fills@.len(),
                self.orders@ == orders0,
                self.risk_engine == start.risk_engine,
                self.event_bus == start.event_bus,
                self.trades@ == start.trades@,
                self.next_order_id == start.next_order_id,
                self.fills@ == fills0 + fills@.subrange(0, k as int),
                forall|i: int| 0 <= i < fills@.len() ==> (#[trigger] fills@[i]).order_id == order_id,
                forall|id: u64| id != order_id ==> #[trigger] order_fill_total(self.fills@, id) == order_fill_total(fills0, id),
                order_fill_total(self.fills@, order_id) == order_fill_total(fills0, order_id) + fills_total(fills@.subrange(0, k as int)),
            decreases fills@.len() - k,
        {
            let ghost before = self.fills@;
            self.fills.push(fills[k].duplicate());
            proof {
                assert(self.fills@.drop_last() =~= before);
                assert(fills@.subrange(0, k + 1).drop_last() =~= fills@.subrange(0, k as int));
                assert(self.fills@ =~= fills0 + fills@.subrange(0, k + 1));
                assert(self.fills@.last() == fills@[k as int]);
                assert forall|id: u64| id != order_id implies #[trigger] order_fill_total(self.fills@, id)
                    == order_fill_total(fills0, id) by {
                    assert(self.fills@.drop_last() == before);
                    assert(self.fills@.last().order_id == order_id);
                    assert(order_fill_total(before, id) == order_fill_total(fills0, id));
                }
            }
            k = k + 1;
        }
        assert(fills@.subrange(0, k as int) =~= fills@);
        assert(self.orders@.len() > 0);
        assert(idx == orders0.len() - 1);
        assert(orders0.last() == orders0[idx as int]);
        let mut o = self.orders.pop().unwrap();
        assert(o == orders0.last());
        assert(orders0[idx as int].wf());
        o.filled_quantity = filled_qty;
        o.status = if filled_qty.compare(&o.quantity) >= 0 {
            OrderStatus::Filled
        } else {
            OrderStatus::PartiallyFilled
        };
        self.orders.push(o);
        proof {
            assert(self.orders@.drop_last() =~= orders0.drop_last());
            assert forall|i: int| 0 <= i < self.orders@.len() implies order_fill_total(
                self.fills@,
                (#[trigger] self.orders@[i]).id,
            ) == self.orders@[i].filled_quantity.units() by {
                if i < idx {
                    assert(self.orders@[i] == orders0[i]);
                    assert(orders0[i].id != order_id);
                }
            }
            assert forall|j: int| 0 <= j < self.fills@.len() implies 1 <= (#[trigger] self.fills@[j]).order_id
                <= self.orders@.len() by {
                if j >= fills0.len() {
                    assert(self.fills@[j] == fills@[j - fills0.len()]);
                }
            }
            assert(self.orders@[idx as int].status == OrderStatus::Filled);
            assert(self.orders@[idx as int].wf());
            assert forall|i: int| 0 <= i < self.orders@.len() implies (#[trigger] self.orders@[i]).id == i + 1
                && self.orders@[i].wf() by {
                if i < idx {
                    assert(self.orders@[i] == orders0[i]);
                }
            }
            assert forall|i: int| 0 <= i < self.orders@.len() && !(#[trigger] self.orders@[i]).status.terminal()
                implies self.orders@[i].filled_quantity.units() == 0 by {
                if i < idx {
                    assert(self.orders@[i] == orders0[i]);
                }
            }
            assert forall|i: int| 0 <= i < self.orders@.len() implies (#[trigger] self.orders@[i]).status
                != OrderStatus::PartiallyFilled by {
                if i < idx {
                    assert(self.orders@[i] == orders0[i]);
                }
            }
            assert forall|i: int| 0 <= i < self.orders@.len() && (#[trigger] self.orders@[i]).status
                == OrderStatus::Filled implies self.orders@[i].filled_quantity.units()
                == self.orders@[i].quantity.units() by {
                if i < idx {
                    assert(self.orders@[i] == orders0[i]);
                }
            }
            assert(orders_wf(self.orders@, self.fills@));
            assert(terminal_kept(orders0, self.orders@)) by {
                assert forall|i: int| 0 <= i < orders0.len() && (#[trigger] orders0[i]).status.terminal()
                    implies self.orders@[i] == orders0[i] by {
                    if i < idx {
                        assert(self.orders@[i] == orders0[i]);
                    }
                }
            }
        }
        let ghost settled = *self;
        let mut k: usize = 0;
        while k < fills.len()
            invariant
                settled.wf(),
                self.wf(),
                self.orders@ == settled.orders@,
                self.fills@ == settled.fills@,
                self.risk_engine == settled.risk_engine,
                self.trades@ == settled.trades@,
                terminal_kept(old(self).orders@, self.orders@),
                self.orders@.len() == old(self).orders@.len(),
                self.risk_engine == old(self).risk_engine,
                self.trades@ == old(self).trades@,
                self.orders@.last().status == OrderStatus::Filled,
                k <= fills@.len(),
                fills@.len() == fill_count(quantity),
                old(self).wf(),
                old(self).orders@.len() > 0,
                quantity == old(self).orders@.last().quantity,
                old(self).event_bus.counters()[5] + k <= u64::MAX,
                self.event_bus.counters() == old(self).event_bus.counters().update(
                    5,
                    (old(self).event_bus.counters()[5] + k) as u64,
                ),
            decreases fills@.len() - k,
        {
            let f = &fills[k];
            self.event_bus.publish(
                Event::OrderFilled {
                    order_id,
                    symbol: f.symbol.clone(),
                    filled_qty: f.quantity,
                    price: f.price,
                },
            )?;
            proof {
                assert(self.event_bus.counters() =~= old(self).event_bus.counters().update(
                    5,
                    (old(self).event_bus.counters()[5] + k + 1) as u64,
                ));
            }
            k = k + 1;
        }
        if filled_qty.is_positive() {
            let timestamp = now;
            let trade = Trade {
                symbol: symbol.clone(),
                signal,
                entry_price,
                position_size: filled_qty,
                stop_loss,
                timestamp,
            };
            self.trades.push(trade.duplicate());
            self.risk_engine.record_trade_open(
                symbol.clone(),
                side,
                entry_price,
                filled_qty,
                stop_loss,
                timestamp,
            )?;
            self.event_bus.publish(
                Event::TradeExecuted {
                    symbol,
                    signal,
                    entry_price,
                    position_size: filled_qty,
                    stop_loss,
                },
            )?;
            return Ok(Some(trade));
        }
        Ok(None)
    }

    /// Turns a signal into a trade: `Hold` does nothing; otherwise the size
    /// puts 2% of the balance at risk over the stop distance, the risk engine
    /// validates (a refusal publishes `RiskHalt` when the switch is now
    /// tripped, then `Error`, and fails with an execution error), the stop is
    /// placed, a market IOC order is submitted and filled.
    pub fn execute(&mut self, symbol: String, signal: Signal, entry_price: Money, stop_loss_distance: Money) -> (r:
        Result<Option<Trade>, TradingError>)
        requires
            old(self).wf(),
            entry_price.wf(),
            stop_loss_distance.wf(),
        ensures
            final(self).wf(),
            terminal_kept(old(self).order_list(), final(self).order_list()),
            signal == Signal::Hold ==> r == Ok::<Option<Trade>, TradingError>(None) && *final(self)
                == *old(self),
            r matches Ok(None) ==> signal == Signal::Hold,
            signal != Signal::Hold && !(old(self).risk().balance().units() > 0
                && stop_loss_distance.units() > 0) ==> (r matches Err(TradingError::Validation(_)))
                && *final(self) == *old(self),
            final(self).risk().kill() ==> old(self).risk().kill() || r is Err,
            r matches Ok(Some(t)) ==> signal != Signal::Hold && t.symbol == symbol && t.signal == signal
                && t.entry_price == entry_price && size_spec(
                old(self).risk().balance(),
                Money { mantissa: RISK_PER_TRADE_PCT as i128, scale: 0 },
                stop_loss_distance,
            ) is Some && t.position_size.units() == size_spec(
                old(self).risk().balance(),
                Money { mantissa: RISK_PER_TRADE_PCT as i128, scale: 0 },
                stop_loss_distance,
            ).unwrap().units() && final(self).risk().positions().len() == old(self).risk().positions().len() + 1
                && final(self).order_list().len() == old(self).order_list().len() + 1
                && final(self).order_list().last().status == OrderStatus::Filled,
            r matches Err(TradingError::Execution(m)) ==> {
                let o = old(self).bus().published();
                let p = final(self).bus().published();
                &&& final(self).risk().positions() == old(self).risk().positions()
                &&& final(self).order_list() == old(self).order_list()
                &&& p.len() == o.len() + if final(self).risk().kill() { 2int } else { 1int }
                &&& p.subrange(0, o.len() as int) == o
                &&& p.last() == Event::Error(m)
                &&& final(self).risk().kill() ==> (p[o.len() as int] matches Event::RiskHalt { reason }
                    && final(self).risk().reason() == Some(reason@))
            },
            ({
                let c = old(self).bus().counters();
                let size = size_spec(
                    old(self).risk().balance(),
                    Money { mantissa: RISK_PER_TRADE_PCT as i128, scale: 0 },
                    stop_loss_distance,
                );
                signal != Signal::Hold && old(self).risk().balance().units() > 0
                    && stop_loss_distance.units() > 0 && size is Some && old(self).risk().pre_trade_stage(
                    entry_price,
                    size.unwrap(),
                    stop_loss_distance,
                ) != 12 && c[8] < u64::MAX && c[9] < u64::MAX ==> (r matches Err(
                    TradingError::Execution(_),
                ))
            }),
    {
        let now = match signal {
            Signal::Hold => None,
            _ => wall_clock_ms(),
        };
        self.execute_at(symbol, signal, entry_price, stop_loss_distance, now)
    }

    /// `execute` with the clock reading `now` (`None` when it could not be
    /// read). Turns a signal into a trade: `Hold` does nothing; otherwise the size
    /// puts 2% of the balance at risk over the stop distance, the risk engine
    /// validates (a refusal publishes `RiskHalt` when the switch is now
    /// tripped, then `Error`, and fails with an execution error), the stop is
    /// placed, a market IOC order is submitted and filled.
    pub fn execute_at(
        &mut self,
        symbol: String,
        signal: Signal,
        entry_price: Money,
        stop_loss_distance: Money,
        now: Option<u64>,
    ) -> (r:
        Result<Option<Trade>, TradingError>)
        requires
            old(self).wf(),
            entry_price.wf(),
            stop_loss_distance.wf(),
        ensures
            final(self).wf(),
            terminal_kept(old(self).order_list(), final(self).order_list()),
            signal == Signal::Hold ==> r == Ok::<Option<Trade>, TradingError>(None) && *final(self)
                == *old(self),
            r matches Ok(None) ==> signal == Signal::Hold,
            signal != Signal::Hold && !(old(self).risk().balance().units() > 0
                && stop_loss_distance.units() > 0) ==> (r matches Err(TradingError::Validation(_)))
                && *final(self) == *old(self),
            final(self).risk().kill() ==> old(self).risk().kill() || r is Err,
            r matches Ok(Some(t)) ==> signal != Signal::Hold && t.symbol == symbol && t.signal == signal
                && t.entry_price == entry_price && size_spec(
                old(self).risk().balance(),
                Money { mantissa: RISK_PER_TRADE_PCT as i128, scale: 0 },
                stop_loss_distance,
            ) is Some && t.position_size.units() == size_spec(
                old(self).risk().balance(),
                Money { mantissa: RISK_PER_TRADE_PCT as i128, scale: 0 },
                stop_loss_distance,
            ).unwrap().units() && final(self).risk().positions().len() == old(self).risk().positions().len() + 1
                && final(self).order_list().len() == old(self).order_list().len() + 1
                && final(self).order_list().last().status == OrderStatus::Filled,
            r matches Err(TradingError::Execution(m)) ==> {
                let o = old(self).bus().published();
                let p = final(self).bus().published();
                &&& final(self).risk().positions() == old(self).risk().positions()
                &&& final(self).order_list() == old(self).order_list()
                &&& p.len() == o.len() + if final(self).risk().kill() { 2int } else { 1int }
                &&& p.subrange(0, o.len() as int) == o
                &&& p.last() == Event::Error(m)
                &&& final(self).risk().kill() ==> (p[o.len() as int] matches Event::RiskHalt { reason }
                    && final(self).risk().reason() == Some(reason@))
            },
            ({
                let c = old(self).bus().counters();
                let size = size_spec(
                    old(self).risk().balance(),
                    Money { mantissa: RISK_PER_TRADE_PCT as i128, scale: 0 },
                    stop_loss_distance,
                );
                signal != Signal::Hold && old(self).risk().balance().units() > 0
                    && stop_loss_distance.units() > 0 && size is Some && old(self).risk().pre_trade_stage(
                    entry_price,
                    size.unwrap(),
                    stop_loss_distance,
                ) != 12 && c[8] < u64::MAX && c[9] < u64::MAX ==> (r matches Err(
                    TradingError::Execution(_),
                ))
            }),
            ({
                let c = old(self).bus().counters();
                let size = size_spec(
                    old(self).risk().balance(),
                    Money { mantissa: RISK_PER_TRADE_PCT as i128, scale: 0 },
                    stop_loss_distance,
                );
                let stop = stop_spec(entry_price, stop_loss_distance, signal == Signal::Buy);
                let side = if signal == Signal::Buy {
                    PositionSide::Long
                } else {
                    PositionSide::Short
                };
                now is Some && signal != Signal::Hold && old(self).risk().balance().units() > 0
                    && stop_loss_distance.units() > 0 && size is Some && old(self).risk().pre_trade_stage(
                    entry_price,
                    size.unwrap(),
                    stop_loss_distance,
                ) == 12 && stop is Some && old(self).order_list().len() + 1 < u64::MAX && c[4]
                    < u64::MAX && simulate_ok(entry_price, size.unwrap()) && c[5] + fill_count(
                    size.unwrap(),
                ) <= u64::MAX && c[2] < u64::MAX && !holds(old(self).risk().positions(), symbol@)
                    && Position::new_result(
                    symbol,
                    side,
                    entry_price,
                    size.unwrap(),
                    stop.unwrap(),
                    now.unwrap(),
                ) is Some ==> r is Ok
            }),
    {
        let (side, order_side) = match signal {
            Signal::Buy => (PositionSide::Long, OrderSide::Buy),
            Signal::Sell => (PositionSide::Short, OrderSide::Sell),
            Signal::Hold => {
                return Ok(None);
            },
        };
        let risk_pct = Money::new(RISK_PER_TRADE_PCT as i128, 0);
        proof {
            crate::money::lemma_pow10_pos(28);
        }
        let position_size = PositionSizer::calculate(
            self.risk_engine.account_balance(),
            risk_pct,
            stop_loss_distance,
        )?;
        let ghost before = *self;
        match self.risk_engine.pre_trade_validate(
            symbol.as_str(),
            side,
            entry_price,
            position_size,
            stop_loss_distance,
        ) {
            Ok(()) => {},
            Err(err) => {
                let err_msg = err.to_string();
                if self.risk_engine.is_kill_switch_active() {
                    match self.risk_engine.kill_switch_reason() {
                        Some(reason) => {
                            let reason = reason.to_owned();
                            self.event_bus.publish(Event::RiskHalt { reason })?;
                        },
                        None => {},
                    }
                }
                self.event_bus.publish(Event::Error(err_msg.clone()))?;
                proof {
                    let o = before.event_bus.published();
                    let p = self.event_bus.published();
                    assert(p.subrange(0, o.len() as int) =~= o);
                }
                return Err(TradingError::Execution(err_msg));
            },
        }
        let is_long = match signal {
            Signal::Buy => true,
            _ => false,
        };
        let stop_loss = StopLossManager::calculate_stop_loss(entry_price, stop_loss_distance, is_long)?;
        let timestamp = match now {
            Some(t) => t,
            None => {
                return Err(TradingError::Time("system clock is before the Unix epoch".to_owned()));
            },
        };
        let order_id = self.submit_order_at(
            symbol,
            order_side,
            OrderType::Market,
            TimeInForce::Ioc,
            position_size,
            Some(entry_price),
            timestamp,
        )?;
        self.process_fills(order_id, entry_price, stop_loss, side, signal, timestamp)
    }
}

impl ExecutionEngine {
    /// Whether the trade's stop is hit at `current_price`.
    pub fn check_stop_loss(&self, current_price: Money, trade: &Trade) -> (r: Result<bool, TradingError>)
        requires
            current_price.wf(),
            trade.stop_loss.wf(),
        ensures
            !(current_price.units() > 0 && trade.stop_loss.units() > 0) ==> (r matches Err(
                TradingError::Validation(_),
            )),
            current_price.units() > 0 && trade.stop_loss.units() > 0 ==> r == Ok::<bool, TradingError>(
                if trade.signal == Signal::Buy {
                    current_price.units() <= trade.stop_loss.units()
                } else {
                    current_price.units() >= trade.stop_loss.units()
                },
            ),
    {
        let is_long = match trade.signal {
            Signal::Buy => true,
            _ => false,
        };
        StopLossManager::is_stop_hit(current_price, trade.stop_loss, is_long)
    }

    /// Forwards a price to the risk engine; when the kill-switch is then
    /// tripped, publishes `RiskHalt`, liquidates every position and publishes
    /// `TradeClosed` for each.
    pub fn update_price(&mut self, symbol: &str, price: Money) -> (r: Result<(), TradingError>)
        requires
            old(self).wf(),
            price.wf(),
        ensures
            final(self).wf(),
            final(self).order_list() == old(self).order_list(),
            final(self).risk().kill() == old(self).risk().kill(),
            r is Ok && final(self).risk().kill() ==> final(self).risk().positions().len() == 0,
            r is Ok && !final(self).risk().kill() ==> final(self).bus() == old(self).bus(),
            !old(self).risk().kill() ==> final(self).risk().positions().len() == old(self).risk().positions().len()
                && forall|i: int|
                0 <= i < old(self).risk().positions().len() ==> (#[trigger] final(self).risk().positions()[i]).symbol
                    == old(self).risk().positions()[i].symbol,
            ({
                let p = position_of(old(self).risk().positions(), symbol@);
                !old(self).risk().kill() && (holds(old(self).risk().positions(), symbol@) ==> price.units()
                    > 0 && pnl_of(p.side, p.entry_price, price, p.size) is Some)
                    && final(self).risk().refresh_ok() ==> r is Ok
            }),
            r is Ok && final(self).risk().kill() ==> {
                let o = old(self).bus().published();
                let p = final(self).bus().published();
                &&& p.len() == o.len() + 1 + old(self).risk().positions().len()
                &&& p.subrange(0, o.len() as int) == o
                &&& p[o.len() as int] is RiskHalt
                &&& forall|k: int| o.len() < k < p.len() ==> (#[trigger] p[k]) is TradeClosed
            },
    {
        let ghost o = self.event_bus.published();
        let ghost n = self.risk_engine.positions().len();
        self.risk_engine.update_price(symbol, price)?;
        if self.risk_engine.is_kill_switch_active() {
            match self.risk_engine.kill_switch_reason() {
                Some(reason) => {
                    let reason = reason.to_owned();
                    self.event_bus.publish(Event::RiskHalt { reason })?;
                    proof {
                        assert(self.event_bus.published().subrange(0, o.len() as int) =~= o);
                    }
                },
                None => {},
            }
            let results = self.risk_engine.liquidate_all()?;
            proof {
                assert(results@.len() == n) by {
                    assert(results@.map_values(|t: (String, Money, Money)| (t.0@, t.1, t.2)).len() == results@.len());
                }
            }
            let mut k: usize = 0;
            while k < results.len()
                invariant
                    self.wf(),
                    self.orders@ == old(self).orders@,
                    self.risk_engine.kill() == old(self).risk_engine.kill(),
                    self.risk_engine.kill(),
                    self.risk_engine.positions().len() == 0,
                    k <= results@.len(),
                    results@.len() == n,
                    self.event_bus.published().len() == o.len() + 1 + k,
                    self.event_bus.published().subrange(0, o.len() as int) == o,
                    self.event_bus.published()[o.len() as int] is RiskHalt,
                    forall|j: int|
                        o.len() < j < self.event_bus.published().len() ==> (#[trigger] self.event_bus.published()[j]) is TradeClosed,
                decreases results@.len() - k,
            {
                let t = &results[k];
                let ghost before = self.event_bus.published();
                self.event_bus.publish(
                    Event::TradeClosed { symbol: t.0.clone(), exit_price: t.1, pnl: t.2 },
                )?;
                proof {
                    let p = self.event_bus.published();
                    assert(p.subrange(0, o.len() as int) =~= before.subrange(0, o.len() as int));
                    assert forall|j: int| o.len() < j < p.len() implies (#[trigger] p[j]) is TradeClosed by {
                        if j < before.len() {
                            assert(p[j] == before[j]);
                        }
                    }
                }
                k = k + 1;
            }
        }
        Ok(())
    }

    pub fn is_kill_switch_active(&self) -> (r: bool)
        ensures
            r == self.risk().kill(),
    {
        self.risk_engine.is_kill_switch_active()
    }

    pub fn kill_switch_reason(&self) -> (r: Option<&str>)
        requires
            self.wf(),
        ensures
            r is Some <==> self.risk().kill(),
            r matches Some(s) ==> self.risk().reason() == Some(s@),
    {
        self.risk_engine.kill_switch_reason()
    }

    pub fn balance(&self) -> (r: Money)
        requires
            self.wf(),
        ensures
            r == self.risk().balance(),
    {
        self.risk_engine.account_balance()
    }

    pub fn open_positions(&self) -> (r: usize)
        requires
            self.wf(),
        ensures
            r == self.risk().positions().len(),
    {
        self.risk_engine.open_positions()
    }

    pub fn risk_engine(&self) -> (r: &RiskEngine)
        ensures
            *r == self.risk(),
    {
        &self.risk_engine
    }

    pub fn trades(&self) -> (r: &Vec<Trade>)
        ensures
            r@ == self.trade_list(),
    {
        &self.trades
    }

    /// The orders, by id: `orders()[i]` has id `i + 1`.
    pub fn orders(&self) -> (r: &Vec<Order>)
        ensures
            r@ == self.order_list(),
    {
        &self.orders
    }

    pub fn fills(&self) -> (r: &Vec<Fill>)
        ensures
            r@ == self.fill_list(),
    {
        &self.fills
    }

    pub fn event_bus(&self) -> (r: &EventBus)
        ensures
            *r == self.bus(),
    {
        &self.event_bus
    }

    /// Hands out the events published so far, oldest first, for dispatch.
    pub fn drain_events(&mut self) -> (r: Vec<Event>)
        requires
            old(self).wf(),
        ensures
            final(self).wf(),
            r@ == old(self).bus().published(),
            final(self).bus().published().len() == 0,
            final(self).order_list() == old(self).order_list(),
            final(self).risk() == old(self).risk(),
    {
        self.event_bus.drain_events()
    }
}

/// Orders are numbered from 1 by position; every order is filled between zero and its quantity, and its fills add up
/// to its filled quantity; a filled order's fills add up to its quantity.
pub proof fn lemma_order_invariants(e: ExecutionEngine)
    requires
        e.wf(),
    ensures
        forall|i: int|
            0 <= i < e.order_list().len() ==> {
                let o = #[trigger] e.order_list()[i];
                &&& o.id == i + 1
                &&& 0 <= o.filled_quantity.units() <= o.quantity.units()
                &&& order_fill_total(e.fill_list(), o.id) == o.filled_quantity.units()
                &&& o.status == OrderStatus::Filled ==> order_fill_total(e.fill_list(), o.id)
                    == o.quantity.units()
            },
{
}

/// The engine never holds more positions than the limit allows.
pub proof fn lemma_positions_capped(e: ExecutionEngine)
    requires
        e.wf(),
    ensures
        e.risk().positions().len() <= e.risk().limits().max_open_positions,
{
}

proof fn lemma_fill_total_absent(fs: Seq<Fill>, id: u64)
    requires
        forall|k: int| 0 <= k < fs.len() ==> (#[trigger] fs[k]).order_id != id,
    ensures
        order_fill_total(fs, id) == 0,
    decreases fs.len(),
{
    if fs.len() > 0 {
        let f2 = fs.drop_last();
        assert forall|k: int| 0 <= k < f2.len() implies (#[trigger] f2[k]).order_id != id by {
            assert(f2[k] == fs[k]);
        }
        lemma_fill_total_absent(f2, id);
    }
}

} // verus!
