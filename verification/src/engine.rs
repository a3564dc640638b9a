//! The aggregation engine: per symbol, one candle for every timerange of the
//! catalog, all of them advanced by every tick of that symbol.

use vstd::prelude::*;
use crate::candle::{candle_views, fits_i128, event_views, seeded, Candle, CandleView, OutputEvent, OutputEventView, Tick, TickView, GAP_LIMIT_MS};
use crate::catalog::{shortest_index, slot_of, TimerangeCatalog};
use crate::store::{row_views, StoredCandle, StoredCandleView};
use crate::text::texts;
use crate::timerange::{lemma_window_bounds, Timerange, MAX_TIME_MS};

verus! {

/// Why a tick was not taken in. The engine is unchanged whenever one of
/// these is returned.
#[derive(Clone, Copy, Debug, PartialEq, Eq, Structural)]
pub enum IngestError {
    /// No state was ever set up for the tick's symbol.
    UnknownSymbol,
    /// The tick's open time is later than [`MAX_TIME_MS`].
    TimeOutOfRange,
    /// A volume delta or a volume of some candle would leave the 128 bits
    /// that volumes are kept in.
    VolumeOutOfRange,
}

/// Everything the engine keeps for one symbol: the candle of every timerange
/// of the catalog, in the catalog's order, and the cumulative volumes that
/// the provider last reported within the present base window.
pub struct AggregationState {
    symbol: String,
    candles: Vec<Candle>,
    last_base_volume: i128,
    last_base_quote_volume: i128,
}

/// The mathematical content of an [`AggregationState`].
pub struct AggregationStateView {
    pub symbol: Seq<char>,
    pub candles: Seq<CandleView>,
    pub last_base_volume: int,
    pub last_base_quote_volume: int,
}

impl View for AggregationState {
    type V = AggregationStateView;

    closed spec fn view(&self) -> AggregationStateView {
        AggregationStateView {
            symbol: self.symbol@,
            candles: candle_views(self.candles@),
            last_base_volume: self.last_base_volume as int,
            last_base_quote_volume: self.last_base_quote_volume as int,
        }
    }
}

impl AggregationStateView {
    /// The state holds one candle per timerange of the catalog, each of the
    /// state's symbol and of its own timerange.
    pub open spec fn shaped(self, catalog: Seq<Timerange>) -> bool {
        &&& self.candles.len() == catalog.len()
        &&& forall|i: int|
            0 <= i < catalog.len() ==> (#[trigger] self.candles[i]).timerange == catalog[i]
                && self.candles[i].symbol == self.symbol
    }

    /// The tick starts the base window anew: the base candle was never
    /// initialized, or the tick lies outside its window.
    pub open spec fn base_resets(self, catalog: Seq<Timerange>, tick: TickView) -> bool {
        let base = self.candles[shortest_index(catalog)];
        base.is_blank() || !base.holds(tick.open_time_ms)
    }

    /// The volume that the tick adds, shared by all timeranges: the tick's
    /// cumulative volume, less what was already counted of the same base
    /// window.
    pub open spec fn volume_delta(self, catalog: Seq<Timerange>, tick: TickView) -> int {
        if self.base_resets(catalog, tick) {
            tick.volume
        } else {
            tick.volume - self.last_base_volume
        }
    }

    /// The quote volume that the tick adds, shared by all timeranges.
    pub open spec fn quote_volume_delta(self, catalog: Seq<Timerange>, tick: TickView) -> int {
        if self.base_resets(catalog, tick) {
            tick.quote_volume
        } else {
            tick.quote_volume - self.last_base_quote_volume
        }
    }

    /// The candle of position `i` once the tick has been applied.
    pub open spec fn advanced_candle(self, catalog: Seq<Timerange>, tick: TickView, i: int) -> CandleView {
        self.candles[i].advanced(
            tick,
            catalog[i],
            self.volume_delta(catalog, tick),
            self.quote_volume_delta(catalog, tick),
        )
    }

    /// The state once the tick has been applied to every candle. The
    /// accumulators, counted from zero where the base window starts anew,
    /// grow by the deltas.
    pub open spec fn ingested(self, catalog: Seq<Timerange>, tick: TickView) -> AggregationStateView {
        let resets = self.base_resets(catalog, tick);
        AggregationStateView {
            symbol: self.symbol,
            candles: Seq::new(
                self.candles.len(),
                |i: int| self.advanced_candle(catalog, tick, i),
            ),
            last_base_volume: (if resets {
                0
            } else {
                self.last_base_volume
            }) + self.volume_delta(catalog, tick),
            last_base_quote_volume: (if resets {
                0
            } else {
                self.last_base_quote_volume
            }) + self.quote_volume_delta(catalog, tick),
        }
    }

    /// The events of the first `n` timeranges of the catalog, in its order.
    pub open spec fn events_upto(self, catalog: Seq<Timerange>, tick: TickView, n: int) -> Seq<
        OutputEventView,
    >
        decreases n,
    {
        if n <= 0 {
            Seq::empty()
        } else {
            self.events_upto(catalog, tick, n - 1) + self.candles[n - 1].emitted(
                tick,
                catalog[n - 1],
                self.volume_delta(catalog, tick),
                self.quote_volume_delta(catalog, tick),
            )
        }
    }

    /// The events of the timerange at position `i` of the catalog.
    pub open spec fn events_of(self, catalog: Seq<Timerange>, tick: TickView, i: int) -> Seq<
        OutputEventView,
    > {
        self.candles[i].emitted(
            tick,
            catalog[i],
            self.volume_delta(catalog, tick),
            self.quote_volume_delta(catalog, tick),
        )
    }

    /// All events that the tick gives rise to, timerange by timerange.
    pub open spec fn events(self, catalog: Seq<Timerange>, tick: TickView) -> Seq<OutputEventView> {
        self.events_upto(catalog, tick, self.candles.len() as int)
    }

    /// Every candle of the state is open, that is without a close price,
    /// and, unless it was never initialized, spans a window of its
    /// timerange: it opens on a multiple of the timerange's length and
    /// closes one second before the next.
    pub open spec fn settled(self) -> bool {
        forall|i: int|
            0 <= i < self.candles.len() ==> {
                let candle = #[trigger] self.candles[i];
                let length = candle.timerange.duration_ms();
                &&& candle.close is None
                &&& candle.is_blank() || (candle.open_time_ms % length == 0
                    && candle.close_time_ms == candle.open_time_ms + length - 1000)
            }
    }

    /// The tick can be taken in: the deltas and every candle of the state
    /// that follows fit their machine integers.
    pub open spec fn takes(self, catalog: Seq<Timerange>, tick: TickView) -> bool {
        &&& fits_i128(self.volume_delta(catalog, tick))
        &&& fits_i128(self.quote_volume_delta(catalog, tick))
        &&& self.ingested(catalog, tick).representable()
    }

    /// Every candle of the state fits machine integers.
    pub open spec fn representable(self) -> bool {
        forall|i: int| 0 <= i < self.candles.len() ==> (#[trigger] self.candles[i]).representable()
    }
}

impl AggregationState {
    /// The state of a symbol that has seen no tick: a never-initialized
    /// candle per timerange and nothing counted.
    pub open spec fn fresh(symbol: Seq<char>, catalog: Seq<Timerange>) -> AggregationStateView {
        AggregationStateView {
            symbol,
            candles: Seq::new(catalog.len(), |i: int| crate::candle::blank(symbol, catalog[i])),
            last_base_volume: 0,
            last_base_quote_volume: 0,
        }
    }

    fn new(symbol: &str, catalog: &TimerangeCatalog) -> (state: AggregationState)
        ensures
            state@ == Self::fresh(symbol@, catalog@),
            state@.shaped(catalog@),
    {
        let mut candles: Vec<Candle> = Vec::new();
        let mut i: usize = 0;
        while i < catalog.len()
            invariant
                i <= catalog@.len(),
                candles@.len() == i,
                forall|k: int|
                    0 <= k < i ==> (#[trigger] candles@[k])@ == crate::candle::blank(
                        symbol@,
                        catalog@[k],
                    ),
            decreases catalog@.len() - i,
        {
            candles.push(Candle::blank(symbol, catalog.get(i)));
            i += 1;
        }
        let state = AggregationState {
            symbol: symbol.to_owned(),
            candles,
            last_base_volume: 0,
            last_base_quote_volume: 0,
        };
        assert(state@.candles =~= Self::fresh(symbol@, catalog@).candles);
        state
    }

    /// Applies a tick of this state's symbol to every candle. Gives the
    /// state that follows and the events, or `None` where the deltas or
    /// that state do not fit machine integers.
    fn ingest(&self, catalog: &TimerangeCatalog, tick: &Tick) -> (out: Option<
        (AggregationState, Vec<OutputEvent>),
    >)
        requires
            catalog.wf(),
            self@.shaped(catalog@),
            tick.symbol@ == self@.symbol,
            tick.open_time_ms <= MAX_TIME_MS,
        ensures
            out is Some <==> self@.takes(catalog@, tick@),
            out matches Some((next, events)) ==> {
                &&& next@ == self@.ingested(catalog@, tick@)
                &&& next@.shaped(catalog@)
                &&& event_views(events@) == self@.events(catalog@, tick@)
            },
    {
        let base = catalog.base();
        let base_candle = &self.candles[base];
        let resets = base_candle.is_blank() || !base_candle.holds(tick.open_time_ms);
        let volume_delta: i128 = if resets {
            tick.volume
        } else {
            match tick.volume.checked_sub(self.last_base_volume) {
                Some(delta) => delta,
                None => {
                    return None;
                },
            }
        };
        let quote_volume_delta: i128 = if resets {
            tick.quote_volume
        } else {
            match tick.quote_volume.checked_sub(self.last_base_quote_volume) {
                Some(delta) => delta,
                None => {
                    return None;
                },
            }
        };
        let ghost target = self@.ingested(catalog@, tick@);
        let mut candles: Vec<Candle> = Vec::new();
        let mut events: Vec<OutputEvent> = Vec::new();
        let mut i: usize = 0;
        while i < self.candles.len()
            invariant
                i <= self.candles@.len(),
                self@.shaped(catalog@),
                tick.symbol@ == self@.symbol,
                tick.open_time_ms <= MAX_TIME_MS,
                volume_delta == self@.volume_delta(catalog@, tick@),
                quote_volume_delta == self@.quote_volume_delta(catalog@, tick@),
                target == self@.ingested(catalog@, tick@),
                candles@.len() == i,
                forall|k: int| 0 <= k < i ==> (#[trigger] candles@[k])@ == target.candles[k],
                event_views(events@) == self@.events_upto(catalog@, tick@, i as int),
            decreases self.candles@.len() - i,
        {
            let last = &self.candles[i];
            match last.advance(tick, catalog.get(i), volume_delta, quote_volume_delta) {
                Some((next, mut emitted)) => {
                    candles.push(next);
                    events.append(&mut emitted);
                },
                None => {
                    assert(!target.candles[i as int].representable());
                    return None;
                },
            }
            i += 1;
        }
        let next = AggregationState {
            symbol: self.symbol.clone(),
            candles,
            last_base_volume: tick.volume,
            last_base_quote_volume: tick.quote_volume,
        };
        assert(next@.candles =~= target.candles);
        Some((next, events))
    }
}

/// The engine: the catalog and the state of every symbol that was set up.
pub struct CandleEngine {
    catalog: TimerangeCatalog,
    states: Vec<AggregationState>,
}

/// The mathematical content of a [`CandleEngine`]: the catalog and, by
/// symbol, the state of each symbol that was set up.
pub struct CandleEngineView {
    pub catalog: Seq<Timerange>,
    pub states: Map<Seq<char>, AggregationStateView>,
}

impl CandleEngineView {
    /// The candle of a symbol in a timerange, where the engine has one.
    pub open spec fn candle(self, symbol: Seq<char>, timerange: Timerange) -> Option<CandleView> {
        if self.states.contains_key(symbol) && self.catalog.contains(timerange) {
            Some(self.states[symbol].candles[slot_of(self.catalog, timerange)])
        } else {
            None
        }
    }
}

impl View for CandleEngine {
    type V = CandleEngineView;

    closed spec fn view(&self) -> CandleEngineView {
        CandleEngineView {
            catalog: self.catalog@,
            states: Map::new(
                |symbol: Seq<char>| self.knows(symbol),
                |symbol: Seq<char>| self.states@[self.position(symbol)]@,
            ),
        }
    }
}

/// What a tick does to an engine: the engine that follows and the events to
/// act on, or the reason why the tick is not taken in. A tick without a
/// symbol changes nothing and gives no event.
pub open spec fn ingest(engine: CandleEngineView, tick: TickView) -> Result<
    (CandleEngineView, Seq<OutputEventView>),
    IngestError,
> {
    if tick.symbol.len() == 0 {
        Ok((engine, Seq::empty()))
    } else if !engine.states.contains_key(tick.symbol) {
        Err(IngestError::UnknownSymbol)
    } else if tick.open_time_ms > MAX_TIME_MS {
        Err(IngestError::TimeOutOfRange)
    } else {
        let state = engine.states[tick.symbol];
        let next = state.ingested(engine.catalog, tick);
        if !state.takes(engine.catalog, tick) {
            Err(IngestError::VolumeOutOfRange)
        } else {
            Ok(
                (
                    CandleEngineView {
                        catalog: engine.catalog,
                        states: engine.states.insert(tick.symbol, next),
                    },
                    state.events(engine.catalog, tick),
                ),
            )
        }
    }
}

impl CandleView {
    /// This candle with the numbers of a stored row in place of its own.
    /// The row's close price is left behind: the window is open again.
    pub open spec fn restored(self, row: StoredCandleView) -> CandleView {
        CandleView {
            open_time_ms: row.open_time_ms,
            close_time_ms: row.close_time_ms,
            open: row.open,
            high: row.high,
            low: row.low,
            price: row.price,
            close: None,
            volume: row.volume,
            quote_volume: row.quote_volume,
            ..self
        }
    }
}

impl AggregationStateView {
    /// This state with a stored row of its symbol taken in: the candle of
    /// the row's timerange is restored, where the catalog has that timerange.
    pub open spec fn restored(self, catalog: Seq<Timerange>, row: StoredCandleView) -> AggregationStateView {
        match Timerange::named(row.timerange) {
            Some(timerange) => AggregationStateView {
                candles: Seq::new(
                    self.candles.len(),
                    |i: int|
                        if catalog[i] == timerange {
                            self.candles[i].restored(row)
                        } else {
                            self.candles[i]
                        },
                ),
                ..self
            },
            None => self,
        }
    }
}

/// The fresh states of a list of symbols.
pub open spec fn fresh_states(symbols: Seq<Seq<char>>, catalog: Seq<Timerange>) -> Map<
    Seq<char>,
    AggregationStateView,
> {
    Map::new(
        |symbol: Seq<char>| symbols.contains(symbol),
        |symbol: Seq<char>| AggregationState::fresh(symbol, catalog),
    )
}

/// The states with one stored row taken in. A row of a symbol that was not
/// set up is ignored.
pub open spec fn restore_row(
    states: Map<Seq<char>, AggregationStateView>,
    catalog: Seq<Timerange>,
    row: StoredCandleView,
) -> Map<Seq<char>, AggregationStateView> {
    if states.contains_key(row.symbol) {
        states.insert(row.symbol, states[row.symbol].restored(catalog, row))
    } else {
        states
    }
}

/// The states with a list of stored rows taken in, one after the other.
pub open spec fn restore_rows(
    states: Map<Seq<char>, AggregationStateView>,
    catalog: Seq<Timerange>,
    rows: Seq<StoredCandleView>,
) -> Map<Seq<char>, AggregationStateView>
    decreases rows.len(),
{
    if rows.len() == 0 {
        states
    } else {
        restore_row(restore_rows(states, catalog, rows.drop_last()), catalog, rows.last())
    }
}

/// The engine that a catalog, the configured symbols and the rows of the
/// store describe.
pub open spec fn loaded(
    catalog: Seq<Timerange>,
    symbols: Seq<Seq<char>>,
    rows: Seq<StoredCandleView>,
) -> CandleEngineView {
    CandleEngineView {
        catalog,
        states: restore_rows(fresh_states(symbols, catalog), catalog, rows),
    }
}

impl CandleEngine {
    spec fn knows(&self, symbol: Seq<char>) -> bool {
        exists|i: int| 0 <= i < self.states@.len() && (#[trigger] self.states@[i])@.symbol == symbol
    }

    spec fn position(&self, symbol: Seq<char>) -> int {
        choose|i: int| 0 <= i < self.states@.len() && (#[trigger] self.states@[i])@.symbol == symbol
    }

    /// The catalog is valid, every state has the catalog's shape, and no
    /// symbol has two states.
    pub closed spec fn wf(&self) -> bool {
        &&& self.catalog.wf()
        &&& forall|i: int|
            0 <= i < self.states@.len() ==> (#[trigger] self.states@[i])@.shaped(self.catalog@)
        &&& forall|i: int, j: int|
            0 <= i < j < self.states@.len() ==> (#[trigger] self.states@[i])@.symbol != (
            #[trigger] self.states@[j])@.symbol
    }

    /// Replacing the state at one position by a state of the same symbol
    /// replaces that symbol's entry and no other.
    proof fn lemma_replaced(before: &CandleEngine, after: &CandleEngine, at: int)
        requires
            before.wf(),
            after.catalog@ == before.catalog@,
            after.catalog.wf(),
            0 <= at < before.states@.len(),
            after.states@.len() == before.states@.len(),
            forall|i: int|
                0 <= i < before.states@.len() && i != at ==> after.states@[i] == before.states@[i],
            after.states@[at]@.symbol == before.states@[at]@.symbol,
            after.states@[at]@.shaped(before.catalog@),
        ensures
            after.wf(),
            after@.states == before@.states.insert(
                before.states@[at]@.symbol,
                after.states@[at]@,
            ),
            after@.catalog == before@.catalog,
    {
    }

    /// Appending the state of a symbol that has none yet adds that symbol's
    /// entry and changes no other.
    proof fn lemma_appended(before: &CandleEngine, after: &CandleEngine)
        requires
            before.wf(),
            after.catalog@ == before.catalog@,
            after.catalog.wf(),
            after.states@.len() == before.states@.len() + 1,
            forall|i: int| 0 <= i < before.states@.len() ==> after.states@[i] == before.states@[i],
            !before.knows(after.states@.last()@.symbol),
            after.states@.last()@.shaped(before.catalog@),
        ensures
            after.wf(),
            after@.states == before@.states.insert(
                after.states@.last()@.symbol,
                after.states@.last()@,
            ),
            after@.catalog == before@.catalog,
    {
    }

    /// Position of the state of a symbol, if the symbol was set up.
    fn find(&self, symbol: &str) -> (found: Option<usize>)
        requires
            self.wf(),
        ensures
            found is Some <==> self@.states.contains_key(symbol@),
            found is Some <==> self.knows(symbol@),
            found matches Some(at) ==> at < self.states@.len() && self.states@[at as int]@.symbol
                == symbol@ && self@.states[symbol@] == self.states@[at as int]@,
    {
        let mut i: usize = 0;
        while i < self.states.len()
            invariant
                i <= self.states@.len(),
                self.wf(),
                forall|k: int| 0 <= k < i ==> (#[trigger] self.states@[k])@.symbol != symbol@,
            decreases self.states@.len() - i,
        {
            if self.states[i].symbol.as_str().eq(symbol) {
                return Some(i);
            }
            i += 1;
        }
        None
    }

    /// Sets up a fresh state for a symbol unless it has a state already.
    fn enroll(&mut self, symbol: &str)
        requires
            old(self).wf(),
        ensures
            final(self).wf(),
            final(self)@.catalog == old(self)@.catalog,
            final(self)@.states == if old(self)@.states.contains_key(symbol@) {
                old(self)@.states
            } else {
                old(self)@.states.insert(
                    symbol@,
                    AggregationState::fresh(symbol@, old(self)@.catalog),
                )
            },
    {
        if self.find(symbol).is_none() {
            let state = AggregationState::new(symbol, &self.catalog);
            let ghost before = *self;
            self.states.push(state);
            proof {
                CandleEngine::lemma_appended(&before, self);
            }
        }
    }

    /// Takes one stored row in.
    fn restore(&mut self, row: &StoredCandle)
        requires
            old(self).wf(),
        ensures
            final(self).wf(),
            final(self)@.catalog == old(self)@.catalog,
            final(self)@.states == restore_row(old(self)@.states, old(self)@.catalog, row@),
    {
        let ghost before = *self;
        let at = match self.find(row.symbol.as_str()) {
            Some(at) => at,
            None => {
                return;
            },
        };
        let ghost state_before = before.states@[at as int]@;
        proof {
            self.catalog.lemma_wf();
        }
        let timerange = match Timerange::from_name(row.timerange.as_str()) {
            Some(timerange) => timerange,
            None => {
                return;
            },
        };
        let slot = match self.catalog.position(timerange) {
            Some(slot) => slot,
            None => {
                assert(state_before.restored(before@.catalog, row@).candles =~= state_before.candles);
                return;
            },
        };
        let mut state = self.states.remove(at);
        let last = &state.candles[slot];
        let candle = Candle {
            symbol: last.symbol.clone(),
            timerange: last.timerange,
            open_time_ms: row.open_time_ms,
            close_time_ms: row.close_time_ms,
            open: row.open,
            high: row.high,
            low: row.low,
            price: row.price,
            close: None,
            volume: row.volume,
            quote_volume: row.quote_volume,
        };
        state.candles[slot] = candle;
        proof {
            let target = state_before.restored(before@.catalog, row@);
            assert(state@.candles =~= target.candles);
        }
        self.states.insert(at, state);
        proof {
            CandleEngine::lemma_replaced(&before, self, at as int);
        }
    }

    /// The candle of a symbol in a timerange, where the engine has one.
    pub fn candle(&self, symbol: &str, timerange: Timerange) -> (found: Option<Candle>)
        requires
            self.wf(),
        ensures
            match found {
                Some(candle) => Some(candle@) == self@.candle(symbol@, timerange),
                None => self@.candle(symbol@, timerange) is None,
            },
    {
        let at = match self.find(symbol) {
            Some(at) => at,
            None => {
                return None;
            },
        };
        let slot = match self.catalog.position(timerange) {
            Some(slot) => slot,
            None => {
                return None;
            },
        };
        proof {
            self.catalog.lemma_wf();
        }
        Some(self.states[at].candles[slot].clone())
    }

    /// The cumulative volume and quote volume that were last counted for a
    /// symbol within its present base window.
    pub fn last_base_volumes(&self, symbol: &str) -> (found: Option<(i128, i128)>)
        requires
            self.wf(),
        ensures
            found is Some <==> self@.states.contains_key(symbol@),
            found matches Some(counted) ==> {
                &&& counted.0 == self@.states[symbol@].last_base_volume
                &&& counted.1 == self@.states[symbol@].last_base_quote_volume
            },
    {
        match self.find(symbol) {
            Some(at) => Some(
                (self.states[at].last_base_volume, self.states[at].last_base_quote_volume),
            ),
            None => None,
        }
    }

    /// The catalog of the engine.
    pub fn catalog(&self) -> (catalog: &TimerangeCatalog)
        requires
            self.wf(),
        ensures
            catalog@ == self@.catalog,
            catalog.wf(),
    {
        &self.catalog
    }

    /// Whether a state was set up for the symbol.
    pub fn has_symbol(&self, symbol: &str) -> (known: bool)
        requires
            self.wf(),
        ensures
            known == self@.states.contains_key(symbol@),
    {
        self.find(symbol).is_some()
    }
}

/// Takes a tick in: advances, in the catalog's order, every candle of the
/// tick's symbol and hands out the events to act on, in that same order.
/// A tick without a symbol is dropped in silence. Where the tick cannot be
/// taken in, the engine stays as it was.
pub fn proceed_data(engine: &mut CandleEngine, tick: &Tick) -> (out: Result<
    Vec<OutputEvent>,
    IngestError,
>)
    requires
        old(engine).wf(),
    ensures
        final(engine).wf(),
        final(engine)@.catalog == old(engine)@.catalog,
        tick.symbol@.len() == 0 ==> final(engine)@ == old(engine)@,
        tick.symbol@.len() == 0 ==> (out matches Ok(emitted) && emitted@.len() == 0),
        match ingest(old(engine)@, tick@) {
            Ok((next, events)) => {
                &&& out matches Ok(emitted)
                &&& event_views(emitted@) == events
                &&& final(engine)@ == next
            },
            Err(error) => {
                &&& out matches Err(reported)
                &&& reported == error
                &&& final(engine)@ == old(engine)@
            },
        },
{
    if tick.symbol.as_str().is_empty() {
        let nothing: Vec<OutputEvent> = Vec::new();
        return Ok(nothing);
    }
    let at = match engine.find(tick.symbol.as_str()) {
        Some(at) => at,
        None => {
            return Err(IngestError::UnknownSymbol);
        },
    };
    if tick.open_time_ms > MAX_TIME_MS {
        return Err(IngestError::TimeOutOfRange);
    }
    match engine.states[at].ingest(&engine.catalog, tick) {
        Some((next, events)) => {
            let ghost before = *engine;
            engine.states[at] = next;
            proof {
                CandleEngine::lemma_replaced(&before, engine, at as int);
            }
            Ok(events)
        },
        None => Err(IngestError::VolumeOutOfRange),
    }
}

/// Adding a symbol to a list adds its fresh state, unless the list had it.
proof fn lemma_fresh_states_push(symbols: Seq<Seq<char>>, symbol: Seq<char>, catalog: Seq<Timerange>)
    ensures
        fresh_states(symbols.push(symbol), catalog) == if symbols.contains(symbol) {
            fresh_states(symbols, catalog)
        } else {
            fresh_states(symbols, catalog).insert(symbol, AggregationState::fresh(symbol, catalog))
        },
{
    let longer = symbols.push(symbol);
    assert forall|s: Seq<char>| longer.contains(s) <==> (symbols.contains(s) || s == symbol) by {
        if symbols.contains(s) {
            let i = choose|i: int| 0 <= i < symbols.len() && symbols[i] == s;
            assert(longer[i] == s);
        }
        if s == symbol {
            assert(longer[symbols.len() as int] == s);
        }
    }
}

/// Sets the engine up at startup: a fresh state for every configured symbol,
/// then every row of the store taken in, in the order given. Rows of a
/// symbol that is not configured, or of a timerange that the catalog does
/// not have, are ignored.
pub fn load_last_candles(catalog: TimerangeCatalog, symbols: &Vec<String>, rows: &Vec<StoredCandle>) -> (engine: CandleEngine)
    requires
        catalog.wf(),
    ensures
        engine.wf(),
        engine@ == loaded(catalog@, texts(symbols@), row_views(rows@)),
{
    let ghost ranges = catalog@;
    let ghost names = texts(symbols@);
    let ghost stored = row_views(rows@);
    let mut engine = CandleEngine { catalog, states: Vec::new() };
    let mut i: usize = 0;
    while i < symbols.len()
        invariant
            i <= symbols@.len(),
            names == texts(symbols@),
            engine.wf(),
            engine@.catalog == ranges,
            engine@.states == fresh_states(names.take(i as int), ranges),
        decreases symbols@.len() - i,
    {
        proof {
            assert(names.take(i as int + 1) =~= names.take(i as int).push(names[i as int]));
            lemma_fresh_states_push(names.take(i as int), names[i as int], ranges);
        }
        engine.enroll(symbols[i].as_str());
        i += 1;
    }
    assert(names.take(names.len() as int) =~= names);
    let ghost fresh = fresh_states(names, ranges);
    let mut j: usize = 0;
    while j < rows.len()
        invariant
            j <= rows@.len(),
            stored == row_views(rows@),
            engine.wf(),
            engine@.catalog == ranges,
            engine@.states == restore_rows(fresh, ranges, stored.take(j as int)),
        decreases rows@.len() - j,
    {
        proof {
            assert(stored.take(j as int + 1).drop_last() =~= stored.take(j as int));
        }
        engine.restore(&rows[j]);
        j += 1;
    }
    assert(stored.take(stored.len() as int) =~= stored);
    engine
}

/// After any tick the accumulators hold the cumulative volumes that the
/// tick reported.
pub proof fn lemma_accumulators_follow_tick(
    state: AggregationStateView,
    catalog: Seq<Timerange>,
    tick: TickView,
)
    ensures
        state.ingested(catalog, tick).last_base_volume == tick.volume,
        state.ingested(catalog, tick).last_base_quote_volume == tick.quote_volume,
{
}

/// Volume deltas are increments. Of two ticks in a row, the second of which
/// stays in the base window, the second adds to every timerange the
/// difference of the two reported cumulative volumes.
pub proof fn lemma_delta_is_increment(
    state: AggregationStateView,
    catalog: Seq<Timerange>,
    first: TickView,
    second: TickView,
)
    requires
        !state.ingested(catalog, first).base_resets(catalog, second),
    ensures
        state.ingested(catalog, first).volume_delta(catalog, second) == second.volume
            - first.volume,
        state.ingested(catalog, first).quote_volume_delta(catalog, second) == second.quote_volume
            - first.quote_volume,
{
}

/// The base candle keeps the running total. Where the tick starts the base
/// window anew, or the base candle's volumes agree with the accumulators
/// before the tick, the base candle's volumes after the tick are the
/// cumulative volumes that the tick reported, and agree with the
/// accumulators again.
pub proof fn lemma_base_total_is_cumulative(
    state: AggregationStateView,
    catalog: Seq<Timerange>,
    tick: TickView,
)
    requires
        catalog.len() > 0,
        state.candles.len() == catalog.len(),
        state.base_resets(catalog, tick) || (state.candles[shortest_index(catalog)].volume
            == state.last_base_volume && state.candles[shortest_index(catalog)].quote_volume
            == state.last_base_quote_volume),
    ensures
        ({
            let base = shortest_index(catalog);
            let next = state.ingested(catalog, tick);
            &&& next.candles[base].volume == tick.volume
            &&& next.candles[base].quote_volume == tick.quote_volume
            &&& next.candles[base].volume == next.last_base_volume
            &&& next.candles[base].quote_volume == next.last_base_quote_volume
        }),
{
    crate::catalog::lemma_shortest_index(catalog);
}

/// Every candle that absorbs the tick grows by the shared deltas, whatever
/// its timerange.
pub proof fn lemma_delta_reaches_every_timerange(
    state: AggregationStateView,
    catalog: Seq<Timerange>,
    tick: TickView,
    i: int,
)
    requires
        0 <= i < state.candles.len(),
        state.candles[i].step(tick) is Merge,
    ensures
        state.ingested(catalog, tick).candles[i].volume == state.candles[i].volume
            + state.volume_delta(catalog, tick),
        state.ingested(catalog, tick).candles[i].quote_volume == state.candles[i].quote_volume
            + state.quote_volume_delta(catalog, tick),
{
}

/// A state that has seen no tick has the catalog's shape and is settled.
pub proof fn lemma_fresh_is_settled(symbol: Seq<char>, catalog: Seq<Timerange>)
    ensures
        AggregationState::fresh(symbol, catalog).shaped(catalog),
        AggregationState::fresh(symbol, catalog).settled(),
{
}

/// Ticks keep a state in shape and settled: whatever the tick, as long as
/// it is of the state's symbol, every candle still belongs to that symbol
/// and to its timerange, none has a close price, and each spans a window of
/// its timerange. A close price only ever leaves the engine on a closed
/// candle.
pub proof fn lemma_ingest_keeps_settled(
    state: AggregationStateView,
    catalog: Seq<Timerange>,
    tick: TickView,
)
    requires
        state.shaped(catalog),
        state.settled(),
        tick.symbol == state.symbol,
    ensures
        state.ingested(catalog, tick).shaped(catalog),
        state.ingested(catalog, tick).settled(),
{
    let next = state.ingested(catalog, tick);
    assert forall|i: int| 0 <= i < next.candles.len() implies ({
        let candle = #[trigger] next.candles[i];
        let length = candle.timerange.duration_ms();
        &&& candle.timerange == catalog[i]
        &&& candle.symbol == next.symbol
        &&& candle.close is None
        &&& candle.is_blank() || (candle.open_time_ms % length == 0 && candle.close_time_ms
            == candle.open_time_ms + length - 1000)
    }) by {
        lemma_window_bounds(tick.open_time_ms, catalog[i].duration_ms());
    }
}

/// What a tick that the engine takes in does to the timerange at position
/// `i`: the symbol's candle there is advanced with the shared deltas, the
/// other symbols are untouched, and the events handed out are those of the
/// timeranges in catalog order, the events of `i` following those of the
/// timeranges before it.
pub proof fn lemma_ingest_at(engine: CandleEngineView, tick: TickView, i: int)
    requires
        tick.symbol.len() > 0,
        ingest(engine, tick) is Ok,
        0 <= i < engine.states[tick.symbol].candles.len(),
    ensures
        ({
            let state = engine.states[tick.symbol];
            let next = ingest(engine, tick)->Ok_0.0;
            let events = ingest(engine, tick)->Ok_0.1;
            &&& next.catalog == engine.catalog
            &&& next.states.dom() == engine.states.dom()
            &&& forall|other: Seq<char>|
                other != tick.symbol && engine.states.contains_key(other)
                    ==> #[trigger] next.states[other] == engine.states[other]
            &&& next.states[tick.symbol].candles[i] == state.advanced_candle(
                engine.catalog,
                tick,
                i,
            )
            &&& events == state.events(engine.catalog, tick)
            &&& state.events_upto(engine.catalog, tick, i + 1) == state.events_upto(
                engine.catalog,
                tick,
                i,
            ) + state.events_of(engine.catalog, tick, i)
        }),
{
    let next = ingest(engine, tick)->Ok_0.0;
    assert(next.states.dom() =~= engine.states.dom());
}

/// A tick in the window of an initialized candle does not roll it over.
/// Whenever the engine takes the tick in, the timerange gives a single
/// event, the live state of its candle; the candle keeps its symbol,
/// timerange, window, open and close, takes the higher high, the lower low
/// and the tick's price, and grows by the shared deltas. A tick whose open
/// time is the candle's own is such a tick.
pub proof fn lemma_ingest_same_window(engine: CandleEngineView, tick: TickView, i: int)
    requires
        tick.symbol.len() > 0,
        ingest(engine, tick) is Ok,
        0 <= i < engine.states[tick.symbol].candles.len(),
        !engine.states[tick.symbol].candles[i].is_blank(),
        engine.states[tick.symbol].candles[i].holds(tick.open_time_ms),
    ensures
        ({
            let state = engine.states[tick.symbol];
            let before = state.candles[i];
            let after = ingest(engine, tick)->Ok_0.0.states[tick.symbol].candles[i];
            &&& state.events_of(engine.catalog, tick, i) == seq![OutputEventView::Live(after)]
            &&& after == (CandleView {
                high: crate::candle::max_int(before.high, tick.high),
                low: crate::candle::min_int(before.low, tick.low),
                price: tick.price,
                volume: before.volume + state.volume_delta(engine.catalog, tick),
                quote_volume: before.quote_volume + state.quote_volume_delta(engine.catalog, tick),
                ..before
            })
        }),
{
    lemma_ingest_at(engine, tick, i);
}

/// Rollover closes and reseeds. Whenever the engine takes in a tick that
/// lies outside the window of an initialized candle, no more than
/// [`GAP_LIMIT_MS`] after its close, the timerange gives exactly two
/// events in this order: the old candle with the tick's open as its close
/// and nothing else changed, and the live state of the new candle, which is
/// the candle that the engine then holds, seeded from the tick in the
/// window of the tick's time.
pub proof fn lemma_ingest_rollover(engine: CandleEngineView, tick: TickView, i: int)
    requires
        tick.symbol.len() > 0,
        ingest(engine, tick) is Ok,
        0 <= i < engine.states[tick.symbol].candles.len(),
        !engine.states[tick.symbol].candles[i].is_blank(),
        !engine.states[tick.symbol].candles[i].holds(tick.open_time_ms),
        tick.open_time_ms - engine.states[tick.symbol].candles[i].close_time_ms <= GAP_LIMIT_MS,
    ensures
        ({
            let state = engine.states[tick.symbol];
            let before = state.candles[i];
            let after = ingest(engine, tick)->Ok_0.0.states[tick.symbol].candles[i];
            &&& state.events_of(engine.catalog, tick, i) == seq![
                OutputEventView::Closed(CandleView { close: Some(tick.open), ..before }),
                OutputEventView::Live(after),
            ]
            &&& after == seeded(
                tick,
                engine.catalog[i],
                state.volume_delta(engine.catalog, tick),
                state.quote_volume_delta(engine.catalog, tick),
            )
            &&& (after.open_time_ms, after.close_time_ms) == engine.catalog[i].window(
                tick.open_time_ms,
            )
        }),
{
    lemma_ingest_at(engine, tick, i);
}

/// A continuity gap suppresses bridging. Whenever the engine takes in a
/// tick that opens its window more than [`GAP_LIMIT_MS`] after the close of
/// an initialized candle, the timerange gives exactly three events in this
/// order: one report of the gap, the old candle closed as it was, its close
/// untouched, and the live state of the new candle, which is the candle
/// that the engine then holds, seeded from the tick in the window of the
/// tick's time.
pub proof fn lemma_ingest_gap(engine: CandleEngineView, tick: TickView, i: int)
    requires
        tick.symbol.len() > 0,
        ingest(engine, tick) is Ok,
        0 <= i < engine.states[tick.symbol].candles.len(),
        !engine.states[tick.symbol].candles[i].is_blank(),
        tick.open_time_ms - engine.states[tick.symbol].candles[i].close_time_ms > GAP_LIMIT_MS,
    ensures
        ({
            let state = engine.states[tick.symbol];
            let before = state.candles[i];
            let after = ingest(engine, tick)->Ok_0.0.states[tick.symbol].candles[i];
            &&& state.events_of(engine.catalog, tick, i) == seq![
                OutputEventView::ContinuityGap {
                    candle: before,
                    next_open_time_ms: tick.open_time_ms,
                },
                OutputEventView::Closed(before),
                OutputEventView::Live(after),
            ]
            &&& after == seeded(
                tick,
                engine.catalog[i],
                state.volume_delta(engine.catalog, tick),
                state.quote_volume_delta(engine.catalog, tick),
            )
            &&& (after.open_time_ms, after.close_time_ms) == engine.catalog[i].window(
                tick.open_time_ms,
            )
        }),
{
    lemma_ingest_at(engine, tick, i);
}

} // verus!
