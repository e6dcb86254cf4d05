//! The facts the engine publishes, each with a stable type tag.
use crate::market::PriceEvent;
use crate::money::Money;
use crate::strategy::Signal;
use vstd::prelude::*;

verus! {

/// Number of distinct event tags.
pub const TAG_COUNT: usize = 10;

/// Every fact published on the bus.
#[derive(Debug)]
pub enum Event {
    PriceUpdated(PriceEvent),
    SignalGenerated { strategy_name: String, symbol: String, signal: Signal, price: Money },
    TradeExecuted {
        symbol: String,
        signal: Signal,
        entry_price: Money,
        position_size: Money,
        stop_loss: Money,
    },
    TradeClosed { symbol: String, exit_price: Money, pnl: Money },
    OrderSubmitted {
        order_id: u64,
        symbol: String,
        side: Signal,
        quantity: Money,
        price: Option<Money>,
    },
    OrderFilled { order_id: u64, symbol: String, filled_qty: Money, price: Money },
    OrderCancelled { order_id: u64, symbol: String },
    OrderRejected { order_id: u64, symbol: String, reason: String },
    RiskHalt { reason: String },
    Error(String),
}

/// The tag names, by position.
pub open spec fn tag_name(i: int) -> Seq<char> {
    if i == 0 {
        "PriceUpdated"@
    } else if i == 1 {
        "SignalGenerated"@
    } else if i == 2 {
        "TradeExecuted"@
    } else if i == 3 {
        "TradeClosed"@
    } else if i == 4 {
        "OrderSubmitted"@
    } else if i == 5 {
        "OrderFilled"@
    } else if i == 6 {
        "OrderCancelled"@
    } else if i == 7 {
        "OrderRejected"@
    } else if i == 8 {
        "RiskHalt"@
    } else {
        "Error"@
    }
}

impl Event {
    /// Position of the event's tag among the ten.
    pub open spec fn tag(&self) -> int {
        match self {
            Event::PriceUpdated(_) => 0,
            Event::SignalGenerated { .. } => 1,
            Event::TradeExecuted { .. } => 2,
            Event::TradeClosed { .. } => 3,
            Event::OrderSubmitted { .. } => 4,
            Event::OrderFilled { .. } => 5,
            Event::OrderCancelled { .. } => 6,
            Event::OrderRejected { .. } => 7,
            Event::RiskHalt { .. } => 8,
            Event::Error(_) => 9,
        }
    }

    pub fn tag_index(&self) -> (r: usize)
        ensures
            r == self.tag(),
            r < TAG_COUNT,
    {
        match self {
            Event::PriceUpdated(_) => 0,
            Event::SignalGenerated { .. } => 1,
            Event::TradeExecuted { .. } => 2,
            Event::TradeClosed { .. } => 3,
            Event::OrderSubmitted { .. } => 4,
            Event::OrderFilled { .. } => 5,
            Event::OrderCancelled { .. } => 6,
            Event::OrderRejected { .. } => 7,
            Event::RiskHalt { .. } => 8,
            Event::Error(_) => 9,
        }
    }

    /// The event's type tag, the key subscribers register under.
    pub fn event_type(&self) -> (r: &'static str)
        ensures
            r@ == tag_name(self.tag()),
    {
        tag_text(self.tag_index())
    }
}

/// The name of the tag at position `i`.
pub fn tag_text(i: usize) -> (r: &'static str)
    requires
        i < TAG_COUNT,
    ensures
        r@ == tag_name(i as int),
{
    if i == 0 {
        "PriceUpdated"
    } else if i == 1 {
        "SignalGenerated"
    } else if i == 2 {
        "TradeExecuted"
    } else if i == 3 {
        "TradeClosed"
    } else if i == 4 {
        "OrderSubmitted"
    } else if i == 5 {
        "OrderFilled"
    } else if i == 6 {
        "OrderCancelled"
    } else if i == 7 {
        "OrderRejected"
    } else if i == 8 {
        "RiskHalt"
    } else {
        "Error"
    }
}

} // verus!
