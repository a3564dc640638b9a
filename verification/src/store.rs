//! Candles as the persistence store keeps them.

use vstd::prelude::*;
use crate::candle::{Candle, CandleView};
use crate::timerange::Timerange;

verus! {

/// One row of the store: a candle of a symbol in a timerange. The timerange
/// is kept under its name, which need not be one the engine supports.
/// `price` is the last price seen when the row was written; `close` is the
/// close price, unset where the candle was closed without one.
#[derive(Debug, PartialEq, Eq)]
pub struct StoredCandle {
    pub symbol: String,
    pub timerange: String,
    pub open_time_ms: i64,
    pub close_time_ms: i64,
    pub open: i64,
    pub high: i64,
    pub low: i64,
    pub price: i64,
    pub close: Option<i64>,
    pub volume: i128,
    pub quote_volume: i128,
}

/// The mathematical content of a [`StoredCandle`].
pub struct StoredCandleView {
    pub symbol: Seq<char>,
    pub timerange: Seq<char>,
    pub open_time_ms: int,
    pub close_time_ms: int,
    pub open: int,
    pub high: int,
    pub low: int,
    pub price: int,
    pub close: Option<int>,
    pub volume: int,
    pub quote_volume: int,
}

impl View for StoredCandle {
    type V = StoredCandleView;

    open spec fn view(&self) -> StoredCandleView {
        StoredCandleView {
            symbol: self.symbol@,
            timerange: self.timerange@,
            open_time_ms: self.open_time_ms as int,
            close_time_ms: self.close_time_ms as int,
            open: self.open as int,
            high: self.high as int,
            low: self.low as int,
            price: self.price as int,
            close: match self.close {
                Some(close) => Some(close as int),
                None => None,
            },
            volume: self.volume as int,
            quote_volume: self.quote_volume as int,
        }
    }
}

/// The views of a sequence of rows.
pub open spec fn row_views(rows: Seq<StoredCandle>) -> Seq<StoredCandleView> {
    Seq::new(rows.len(), |i: int| rows[i]@)
}

/// The row under which a candle is stored: the candle as it is, with the
/// timerange under its name.
pub open spec fn stored(candle: CandleView) -> StoredCandleView {
    StoredCandleView {
        symbol: candle.symbol,
        timerange: candle.timerange.name(),
        open_time_ms: candle.open_time_ms,
        close_time_ms: candle.close_time_ms,
        open: candle.open,
        high: candle.high,
        low: candle.low,
        price: candle.price,
        close: candle.close,
        volume: candle.volume,
        quote_volume: candle.quote_volume,
    }
}

/// Makes the row that is written to the store for a candle. The store
/// keys rows by symbol, timerange and open time and, where the key exists,
/// overwrites high, low, close and the two volumes. A candle that was
/// closed without a close price is stored without one.
pub fn add_candle(candle: &Candle) -> (row: StoredCandle)
    ensures
        row@ == stored(candle@),
{
    StoredCandle {
        symbol: candle.symbol.clone(),
        timerange: candle.timerange.as_str().to_owned(),
        open_time_ms: candle.open_time_ms,
        close_time_ms: candle.close_time_ms,
        open: candle.open,
        high: candle.high,
        low: candle.low,
        price: candle.price,
        close: candle.close,
        volume: candle.volume,
        quote_volume: candle.quote_volume,
    }
}

/// Storing loses nothing of a candle. Restored from its own row, a candle
/// is as it was, but for the close price: a restored candle is open again.
pub proof fn lemma_restore_stored(candle: CandleView)
    ensures
        Timerange::named(stored(candle).timerange) == Some(candle.timerange),
        candle.restored(stored(candle)) == (CandleView { close: None, ..candle }),
{
    Timerange::lemma_names(stored(candle).timerange, candle.timerange);
}

} // verus!
