use vstd::prelude::*;

verus! {

// Market data and trading signals. `R` is the real-number type of prices and confidences and
// `T` the timestamp type; the library carries such values without computing with them.

/// The best bid and ask of a symbol, with their sizes and times.
#[derive(Debug, Clone)]
pub struct Quote<R, T> {
    pub symbol: String,
    pub bid: R,
    pub ask: R,
    pub bid_size: u32,
    pub ask_size: u32,
    pub bid_date: T,
    pub ask_date: T,
}

/// One price bar.
#[derive(Debug, Clone, PartialEq)]
pub struct Candle<R> {
    pub symbol: Option<String>,
    pub open: R,
    pub high: R,
    pub low: R,
    pub close: R,
    pub volume: i64,
}

/// What a strategy advises for a symbol.
#[derive(Debug, Clone, PartialEq)]
pub enum Signal<R> {
    Buy { symbol: String, price: R, confidence: R },
    Sell { symbol: String, price: R, confidence: R },
    Hold { symbol: String },
}

} // verus!
