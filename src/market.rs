//! Market data: the price event, its validation and normalisation, the
//! per-symbol duplicate/gap monitor, and the venue response shapes.
use crate::error::TradingError;
use crate::money::Money;
use vstd::prelude::*;
use vstd::string::StringExecFns;

verus! {

/// Relies on `SystemTime::elapsed` measured from `UNIX_EPOCH`: the wall clock in
/// milliseconds, or `None` where the clock reads before the epoch.
#[verifier::external_body]
pub(crate) fn wall_clock_ms() -> (r: Option<u64>) {
    match std::time::UNIX_EPOCH.elapsed() {
        Ok(d) => Some(d.as_millis() as u64),
        Err(_) => None,
    }
}

/// One observed price of a symbol.
#[derive(Debug)]
pub struct PriceEvent {
    pub symbol: String,
    pub price: Money,
    pub timestamp: u64,
    pub volume: Money,
}

impl Clone for PriceEvent {
    fn clone(&self) -> (r: Self)
        ensures
            r == *self,
    {
        PriceEvent {
            symbol: self.symbol.clone(),
            price: self.price,
            timestamp: self.timestamp,
            volume: self.volume,
        }
    }
}

impl PriceEvent {
    pub open spec fn wf(&self) -> bool {
        self.price.wf() && self.volume.wf()
    }

    /// An event stamped with the current wall clock.
    pub fn new(symbol: String, price: Money, volume: Money) -> (r: Result<PriceEvent, TradingError>)
        ensures
            r matches Ok(e) ==> e.symbol == symbol && e.price == price && e.volume == volume,
            r matches Err(e) ==> e is Time,
    {
        match wall_clock_ms() {
            Some(timestamp) => Ok(PriceEvent { symbol, price, timestamp, volume }),
            None => Err(TradingError::Time("system clock is before the Unix epoch".to_owned())),
        }
    }

    /// An event with the given timestamp.
    pub fn at(symbol: String, price: Money, volume: Money, timestamp: u64) -> (r: PriceEvent)
        ensures
            r == (PriceEvent { symbol, price, timestamp, volume }),
    {
        PriceEvent { symbol, price, timestamp, volume }
    }
}

/// Positive price, non-negative volume, non-empty symbol.
pub open spec fn valid_event(e: PriceEvent) -> bool {
    e.price.units() > 0 && e.volume.units() >= 0 && e.symbol@.len() > 0
}

pub struct PriceValidator;

impl PriceValidator {
    /// Accepts exactly the events with a positive price, a non-negative volume
    /// and a non-empty symbol.
    pub fn validate(event: &PriceEvent) -> (r: Result<(), TradingError>)
        requires
            event.wf(),
        ensures
            r is Ok <==> valid_event(*event),
            r matches Err(e) ==> e is Validation,
    {
        if !event.price.is_positive() {
            return Err(TradingError::Validation("Price must be positive".to_owned()));
        }
        if event.volume.is_negative() {
            return Err(TradingError::Validation("Volume cannot be negative".to_owned()));
        }
        if event.symbol.as_str().is_empty() {
            return Err(TradingError::Validation("Symbol cannot be empty".to_owned()));
        }
        Ok(())
    }

    /// Validates, then rounds the price half-to-even to 8 fractional digits.
    /// Volume, symbol and timestamp are kept.
    pub fn normalize(event: PriceEvent) -> (r: Result<PriceEvent, TradingError>)
        requires
            event.wf(),
        ensures
            r is Ok <==> valid_event(event) && event.price.round_spec(8).units() > 0,
            r matches Err(e) ==> e is Validation,
            r matches Ok(n) ==> n.wf() && n.price == event.price.round_spec(8) && n.symbol
                == event.symbol && n.volume == event.volume && n.timestamp == event.timestamp,
            r matches Ok(n) ==> n.price.scale <= 8 && valid_event(n),
    {
        Self::validate(&event)?;
        let mut event = event;
        event.price = event.price.round_dp(8);
        if !event.price.is_positive() {
            return Err(TradingError::Validation("Price rounds to zero at 8 digits".to_owned()));
        }
        Ok(event)
    }
}

/// What the monitor remembers of a symbol: its last timestamp and price (in units of 10^-28).
pub type SeenModel = Seq<(Seq<char>, u64, int)>;

pub open spec fn has_symbol(m: SeenModel, sym: Seq<char>) -> bool {
    exists|i: int| 0 <= i < m.len() && m[i].0 == sym
}

/// The position of `sym` in `m`, where it occurs.
pub open spec fn slot(m: SeenModel, sym: Seq<char>) -> int {
    choose|i: int| 0 <= i < m.len() && m[i].0 == sym
}

pub open spec fn unique_symbols(m: SeenModel) -> bool {
    forall|i: int, j: int| 0 <= i < m.len() && 0 <= j < m.len() && i != j ==> m[i].0 != m[j].0
}

/// The monitor's judgement of an incoming event.
#[derive(PartialEq, Eq, Structural, Clone, Copy, Debug)]
pub enum Verdict {
    Fresh,
    Duplicate,
    Gap,
}

pub open spec fn verdict(m: SeenModel, gap: u64, sym: Seq<char>, ts: u64, price: int) -> Verdict {
    if has_symbol(m, sym) {
        let last = m[slot(m, sym)];
        if ts <= last.1 && price == last.2 {
            Verdict::Duplicate
        } else if ts > last.1 && ts - last.1 > gap {
            Verdict::Gap
        } else {
            Verdict::Fresh
        }
    } else {
        Verdict::Fresh
    }
}

/// The memory after accepting an event.
pub open spec fn record(m: SeenModel, sym: Seq<char>, ts: u64, price: int) -> SeenModel {
    if has_symbol(m, sym) {
        m.update(slot(m, sym), (sym, ts, price))
    } else {
        m.push((sym, ts, price))
    }
}

/// Per-symbol memory of the last accepted timestamp and price, with a gap threshold.
#[derive(Debug)]
pub struct PriceMonitor {
    last_seen: Vec<(String, u64, Money)>,
    gap_threshold_ms: u64,
}

impl PriceMonitor {
    pub closed spec fn model(&self) -> SeenModel {
        self.last_seen@.map_values(|e: (String, u64, Money)| (e.0@, e.1, e.2.units()))
    }

    pub closed spec fn gap(&self) -> u64 {
        self.gap_threshold_ms
    }

    pub closed spec fn wf(&self) -> bool {
        &&& unique_symbols(self.model())
        &&& forall|i: int| 0 <= i < self.last_seen@.len() ==> (#[trigger] self.last_seen@[i]).2.wf()
    }

    pub fn new(gap_threshold_ms: u64) -> (r: PriceMonitor)
        ensures
            r.wf(),
            unique_symbols(r.model()),
            r.model() == Seq::<(Seq<char>, u64, int)>::empty(),
            r.gap() == gap_threshold_ms,
    {
        let r = PriceMonitor { last_seen: Vec::new(), gap_threshold_ms };
        assert(r.model() =~= Seq::<(Seq<char>, u64, int)>::empty());
        r
    }

    fn find(&self, symbol: &String) -> (r: Option<usize>)
        requires
            self.wf(),
        ensures
            r matches Some(i) ==> i < self.model().len() && self.model()[i as int].0 == symbol@,
            r is None ==> !has_symbol(self.model(), symbol@),
    {
        let mut i: usize = 0;
        while i < self.last_seen.len()
            invariant
                i <= self.last_seen@.len(),
                forall|j: int| 0 <= j < i ==> self.model()[j].0 != symbol@,
            decreases self.last_seen@.len() - i,
        {
            if self.last_seen[i].0 == *symbol {
                return Some(i);
            }
            i = i + 1;
        }
        None
    }

    /// The last accepted timestamp and price of a symbol.
    pub fn last_seen(&self, symbol: &str) -> (r: Option<(u64, Money)>)
        requires
            self.wf(),
        ensures
            r is Some <==> has_symbol(self.model(), symbol@),
            r matches Some(p) ==> p.0 == self.model()[slot(self.model(), symbol@)].1
                && p.1.units() == self.model()[slot(self.model(), symbol@)].2 && p.1.wf(),
    {
        let key = symbol.to_owned();
        match self.find(&key) {
            Some(i) => {
                proof {
                    lemma_slot_unique(self.model(), symbol@, i as int);
                }
                Some((self.last_seen[i].1, self.last_seen[i].2))
            },
            None => None,
        }
    }

    /// Drops a retransmission (`None`), rejects a gap longer than the threshold
    /// (state kept), and otherwise records the event and hands it back.
    pub fn process(&mut self, event: PriceEvent) -> (r: Result<Option<PriceEvent>, TradingError>)
        requires
            old(self).wf(),
            event.wf(),
        ensures
            final(self).wf(),
            unique_symbols(final(self).model()),
            final(self).gap() == old(self).gap(),
            ({
                let v = verdict(
                    old(self).model(),
                    old(self).gap(),
                    event.symbol@,
                    event.timestamp,
                    event.price.units(),
                );
                &&& v == Verdict::Duplicate ==> r == Ok::<Option<PriceEvent>, TradingError>(None)
                    && final(self).model() == old(self).model()
                &&& v == Verdict::Gap ==> (r matches Err(TradingError::MarketData(m)) && exists|t: Seq<
                    char,
                >| m@ == "Price gap detected for "@ + event.symbol@ + ": "@ + t + "ms"@)
                    && final(self).model() == old(self).model()
                &&& v == Verdict::Fresh ==> r == Ok::<Option<PriceEvent>, TradingError>(Some(event))
                    && final(self).model() == record(
                    old(self).model(),
                    event.symbol@,
                    event.timestamp,
                    event.price.units(),
                )
            }),
    {
        let ghost m0 = self.model();
        match self.find(&event.symbol) {
            Some(i) => {
                proof {
                    lemma_slot_unique(m0, event.symbol@, i as int);
                }
                let last_ts = self.last_seen[i].1;
                let last_price = self.last_seen[i].2;
                if event.timestamp <= last_ts && event.price.eq_value(&last_price) {
                    return Ok(None);
                }
                if event.timestamp > last_ts && event.timestamp - last_ts > self.gap_threshold_ms {
                    let elapsed = event.timestamp - last_ts;
                    let elapsed_text = elapsed.to_string();
                    let msg = "Price gap detected for ".to_owned().concat(event.symbol.as_str()).concat(
                        ": ",
                    ).concat(elapsed_text.as_str()).concat("ms");
                    assert(msg@ == "Price gap detected for "@ + event.symbol@ + ": "@ + elapsed_text@ + "ms"@);
                    return Err(TradingError::MarketData(msg));
                }
                let entry = (event.symbol.clone(), event.timestamp, event.price);
                self.last_seen.set(i, entry);
                proof {
                    assert(self.model() =~= m0.update(i as int, (event.symbol@, event.timestamp, event.price.units())));
                }
                Ok(Some(event))
            },
            None => {
                let entry = (event.symbol.clone(), event.timestamp, event.price);
                self.last_seen.push(entry);
                proof {
                    assert(self.model() =~= m0.push((event.symbol@, event.timestamp, event.price.units())));
                }
                Ok(Some(event))
            },
        }
    }
}

proof fn lemma_slot_unique(m: SeenModel, sym: Seq<char>, i: int)
    requires
        unique_symbols(m),
        0 <= i < m.len(),
        m[i].0 == sym,
    ensures
        has_symbol(m, sym),
        slot(m, sym) == i,
{
    assert(has_symbol(m, sym));
}

/// Accepting an event and then seeing it again drops the second copy.
pub proof fn lemma_dedup(m: SeenModel, gap: u64, sym: Seq<char>, ts: u64, price: int)
    requires
        unique_symbols(m),
        verdict(m, gap, sym, ts, price) == Verdict::Fresh,
    ensures
        unique_symbols(record(m, sym, ts, price)),
        verdict(record(m, sym, ts, price), gap, sym, ts, price) == Verdict::Duplicate,
{
    let m2 = record(m, sym, ts, price);
    if has_symbol(m, sym) {
        let i = slot(m, sym);
        assert(m2[i].0 == sym);
        assert(unique_symbols(m2));
        lemma_slot_unique(m2, sym, i);
    } else {
        let i = m.len() as int;
        assert(m2[i].0 == sym);
        assert(unique_symbols(m2));
        lemma_slot_unique(m2, sym, i);
    }
}

/// A spot ticker response: `{symbol, lastPrice, volume}`.
#[derive(Debug)]
pub struct BinanceTickerResponse {
    pub symbol: String,
    pub last_price: String,
    pub volume: String,
}

/// A category ticker response: `{result: {list: [...]}}`.
#[derive(Debug)]
pub struct BybitResponse<T> {
    pub result: BybitResult<T>,
}

#[derive(Debug)]
pub struct BybitResult<T> {
    pub list: Vec<T>,
}

/// One entry of a category ticker list: `{symbol, lastPrice, volume24h}`.
#[derive(Debug)]
pub struct BybitTickerData {
    pub symbol: String,
    pub last_price: String,
    pub volume24h: String,
}

pub open spec fn contains_seq(s: Seq<char>, pat: Seq<char>) -> bool {
    exists|i: int| 0 <= i && i + pat.len() <= s.len() && #[trigger] s.subrange(i, i + pat.len()) == pat
}

/// Relies on `str::contains`: whether `pat` occurs in `s` as a contiguous piece.
#[verifier::external_body]
fn str_contains(s: &str, pat: &str) -> (r: bool)
    ensures
        r == contains_seq(s@, pat@),
{
    s.contains(pat)
}

/// The category venue's spot symbol: `BTC` becomes `BTCUSDT`; a symbol that
/// already names `USDT` is kept.
pub fn bybit_symbol(symbol: &str) -> (r: String)
    ensures
        contains_seq(symbol@, "USDT"@) ==> r@ == symbol@,
        !contains_seq(symbol@, "USDT"@) ==> r@ == symbol@ + "USDT"@,
{
    if str_contains(symbol, "USDT") {
        symbol.to_owned()
    } else {
        symbol.to_owned().concat("USDT")
    }
}

/// The price and volume texts of a ticker read exactly as decimals.
pub fn event_from_ticker(symbol: String, last_price: &str, volume: &str, timestamp: u64) -> (r:
    Result<PriceEvent, TradingError>)
    ensures
        r is Ok <==> crate::money::parse_decimal_of(last_price@) is Some
            && crate::money::parse_decimal_of(volume@) is Some,
        r matches Err(e) ==> e is Decimal,
        r matches Ok(e) ==> e.wf() && e.symbol == symbol && e.timestamp == timestamp
            && crate::money::parse_decimal_of(last_price@) == Some(
            (e.price.mantissa as int, e.price.scale as int),
        ) && crate::money::parse_decimal_of(volume@) == Some(
            (e.volume.mantissa as int, e.volume.scale as int),
        ),
{
    let price = match Money::parse(last_price) {
        Ok(p) => p,
        Err(_) => {
            return Err(TradingError::Decimal("invalid decimal text for the last price".to_owned()));
        },
    };
    let volume = match Money::parse(volume) {
        Ok(v) => v,
        Err(_) => {
            return Err(TradingError::Decimal("invalid decimal text for the volume".to_owned()));
        },
    };
    Ok(PriceEvent { symbol, price, timestamp, volume })
}

/// A spot ticker response as an event for the symbol it names.
pub fn binance_event(resp: BinanceTickerResponse, timestamp: u64) -> (r: Result<PriceEvent, TradingError>)
    ensures
        r is Ok <==> crate::money::parse_decimal_of(resp.last_price@) is Some
            && crate::money::parse_decimal_of(resp.volume@) is Some,
        r matches Err(e) ==> e is Decimal,
        r matches Ok(e) ==> e.wf() && e.symbol == resp.symbol && e.timestamp == timestamp
            && crate::money::parse_decimal_of(resp.last_price@) == Some(
            (e.price.mantissa as int, e.price.scale as int),
        ) && crate::money::parse_decimal_of(resp.volume@) == Some(
            (e.volume.mantissa as int, e.volume.scale as int),
        ),
{
    event_from_ticker(resp.symbol, resp.last_price.as_str(), resp.volume.as_str(), timestamp)
}

/// The first entry of a category ticker response as an event for the caller's
/// symbol; an empty list is a market-data error.
pub fn bybit_event(symbol: &str, resp: BybitResponse<BybitTickerData>, timestamp: u64) -> (r: Result<
    PriceEvent,
    TradingError,
>)
    ensures
        resp.result.list@.len() == 0 ==> (r matches Err(TradingError::MarketData(_))),
        resp.result.list@.len() > 0 ==> {
            let t = resp.result.list@[0];
            &&& r is Ok <==> crate::money::parse_decimal_of(t.last_price@) is Some
                && crate::money::parse_decimal_of(t.volume24h@) is Some
            &&& r matches Err(e) ==> e is Decimal
            &&& r matches Ok(e) ==> e.wf() && e.symbol@ == symbol@ && e.timestamp == timestamp
                && crate::money::parse_decimal_of(t.last_price@) == Some(
                (e.price.mantissa as int, e.price.scale as int),
            ) && crate::money::parse_decimal_of(t.volume24h@) == Some(
                (e.volume.mantissa as int, e.volume.scale as int),
            )
        },
{
    if resp.result.list.len() == 0 {
        return Err(TradingError::MarketData("No ticker data from Bybit".to_owned()));
    }
    let t = &resp.result.list[0];
    event_from_ticker(symbol.to_owned(), t.last_price.as_str(), t.volume24h.as_str(), timestamp)
}

} // verus!
