use vstd::prelude::*;

verus! {

/// A closed candle for one instrument.  The close price is fixed-point
/// (units of `10^-8`); the timestamp is milliseconds since the epoch.
#[derive(Debug, Clone)]
pub struct CandleEvent {
    pub asset: String,
    pub close: i64,
    pub timestamp: i64,
    pub interval: String,
}

/// A single trade print for one instrument, fixed-point price and size.
#[derive(Debug, Clone)]
pub struct TradeEvent {
    pub asset: String,
    pub price: i64,
    pub size: i64,
    pub timestamp: i64,
}

/// One market observation, as handed to a strategy.
#[derive(Debug, Clone)]
pub enum MarketEvent {
    Candle(CandleEvent),
    Trade(TradeEvent),
}

impl MarketEvent {
    /// The instrument the event speaks of.
    pub open spec fn spec_asset(&self) -> Seq<char> {
        match self {
            MarketEvent::Candle(c) => c.asset@,
            MarketEvent::Trade(t) => t.asset@,
        }
    }

    /// The price carried by the event: a candle's close, a trade's price.
    pub open spec fn spec_price(&self) -> int {
        match self {
            MarketEvent::Candle(c) => c.close as int,
            MarketEvent::Trade(t) => t.price as int,
        }
    }

    pub fn price(&self) -> (r: i64)
        ensures
            r == self.spec_price(),
    {
        match self {
            MarketEvent::Candle(c) => c.close,
            MarketEvent::Trade(t) => t.price,
        }
    }
}

/// Whether the event concerns the given instrument.
pub fn matches_asset(event: &MarketEvent, asset: &String) -> (r: bool)
    ensures
        r == (event.spec_asset() == asset@),
{
    match event {
        MarketEvent::Candle(c) => c.asset == *asset,
        MarketEvent::Trade(t) => t.asset == *asset,
    }
}

} // verus!
