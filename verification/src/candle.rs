//! The data model: OHLCV candles and the envelope pushed to clients.
//!
//! The service never interprets a price numerically: prices travel as the
//! exact text of the JSON number that the data source produced, so a candle
//! holds its price fields as validated number tokens, byte for byte.

use vstd::prelude::*;
use crate::numtok::is_number_token;

verus! {

/// One OHLCV sample for a fixed time bucket.
///
/// `timestamp` is epoch seconds; the five price fields each hold the text of
/// one JSON number. No ordering among open, high, low and close is assumed
/// or enforced: the data source does not validate it, and neither do we.
#[derive(Clone, Debug, PartialEq, Eq)]
pub struct Candle {
    pub timestamp: u64,
    pub open: Vec<u8>,
    pub high: Vec<u8>,
    pub low: Vec<u8>,
    pub close: Vec<u8>,
    pub volume: Vec<u8>,
}

/// The mathematical image of a candle.
#[verifier::ext_equal]
pub ghost struct CandleView {
    pub timestamp: u64,
    pub open: Seq<u8>,
    pub high: Seq<u8>,
    pub low: Seq<u8>,
    pub close: Seq<u8>,
    pub volume: Seq<u8>,
}

impl View for Candle {
    type V = CandleView;

    open spec fn view(&self) -> CandleView {
        CandleView {
            timestamp: self.timestamp,
            open: self.open@,
            high: self.high@,
            low: self.low@,
            close: self.close@,
            volume: self.volume@,
        }
    }
}

impl DeepView for Candle {
    type V = CandleView;

    open spec fn deep_view(&self) -> CandleView {
        self.view()
    }
}

/// Every price field is one well-formed JSON number token.
pub open spec fn candle_view_wf(c: CandleView) -> bool {
    &&& is_number_token(c.open)
    &&& is_number_token(c.high)
    &&& is_number_token(c.low)
    &&& is_number_token(c.close)
    &&& is_number_token(c.volume)
}

impl Candle {
    pub open spec fn wf(&self) -> bool {
        candle_view_wf(self@)
    }
}

/// The wire envelope pushed to a client: an ordered sequence of candles.
/// An empty sequence is a meaningful value; it acknowledges the connection
/// and stands for "no fresh data available right now".
#[derive(Clone, Debug, PartialEq, Eq)]
pub struct PriceUpdate {
    pub candles: Vec<Candle>,
}

impl View for PriceUpdate {
    type V = Seq<CandleView>;

    open spec fn view(&self) -> Seq<CandleView> {
        self.candles.deep_view()
    }
}

impl PriceUpdate {
    pub open spec fn wf(&self) -> bool {
        forall|k: int| 0 <= k < self@.len() ==> candle_view_wf(self@[k])
    }
}

} // verus!
