//! The failover rule of the resilient fetcher: primary first, then the
//! secondary, with the primary's failure published as an `Error` event. The
//! fetching itself happens outside; these functions take what it returned.
use crate::bus::EventBus;
use crate::error::TradingError;
use crate::event::Event;
use crate::market::PriceEvent;
use vstd::prelude::*;
use vstd::string::StringExecFns;

verus! {

/// What to do after the primary attempt.
#[derive(Debug)]
pub enum Failover {
    /// The primary delivered this event.
    Done(PriceEvent),
    /// The primary failed; ask the secondary.
    TrySecondary,
}

/// The name a resilient fetcher reports.
pub fn resilient_exchange_name() -> (r: &'static str)
    ensures
        r@ == "ResilientFetcher"@,
{
    "ResilientFetcher"
}

/// On success the primary's event is the result; on failure an `Error` event
/// naming the primary's error is published and the secondary is next.
pub fn after_primary(result: Result<PriceEvent, TradingError>, bus: &mut EventBus) -> (r: Failover)
    requires
        old(bus).wf(),
    ensures
        final(bus).wf(),
        result matches Ok(e) ==> r == Failover::Done(e) && *final(bus) == *old(bus),
        result is Err ==> r is TrySecondary && final(bus).subscriptions() == old(bus).subscriptions(),
        match result {
            Err(err) => old(bus).counters()[9] < u64::MAX ==> exists|m: String|
                final(bus).published() == old(bus).published().push(Event::Error(m)) && m@
                    == "Primary feed failed: "@ + err.prefix() + err.msg(),
            Ok(_) => true,
        },
        result matches Err(_) && old(bus).counters()[9] == u64::MAX ==> *final(bus) == *old(bus),
{
    match result {
        Ok(e) => Failover::Done(e),
        Err(err) => {
            let msg = "Primary feed failed: ".to_owned().concat(err.to_string().as_str());
            let _ = bus.publish(Event::Error(msg));
            Failover::TrySecondary
        },
    }
}

/// The secondary's event, or a market-data error naming the secondary's failure.
pub fn after_secondary(result: Result<PriceEvent, TradingError>) -> (r: Result<PriceEvent, TradingError>)
    ensures
        result matches Ok(e) ==> r == Ok::<PriceEvent, TradingError>(e),
        match result {
            Err(err) => r matches Err(TradingError::MarketData(m)) && m@ == "Secondary feed failed: "@
                + err.prefix() + err.msg(),
            Ok(_) => true,
        },
{
    match result {
        Ok(e) => Ok(e),
        Err(err) => Err(
            TradingError::MarketData("Secondary feed failed: ".to_owned().concat(err.to_string().as_str())),
        ),
    }
}

} // verus!
