//! Ticks, candles and the step that folds one tick into one candle.

use vstd::prelude::*;
use crate::timerange::{Timerange, MAX_TIME_MS};

verus! {

/// A tick that opens a window more than this many milliseconds after the
/// close of the candle it replaces leaves a continuity gap.
pub const GAP_LIMIT_MS: i64 = 10_000;

/// One price and volume update of the provider. `volume` and `quote_volume`
/// are cumulative within the provider's current base interval. Volumes are
/// kept wider than prices, as they add up.
#[derive(Debug, PartialEq, Eq)]
pub struct Tick {
    pub symbol: String,
    pub open_time_ms: i64,
    pub close_time_ms: i64,
    pub open: i64,
    pub price: i64,
    pub high: i64,
    pub low: i64,
    pub volume: i128,
    pub quote_volume: i128,
}

/// The mathematical content of a [`Tick`].
pub struct TickView {
    pub symbol: Seq<char>,
    pub open_time_ms: int,
    pub close_time_ms: int,
    pub open: int,
    pub price: int,
    pub high: int,
    pub low: int,
    pub volume: int,
    pub quote_volume: int,
}

impl View for Tick {
    type V = TickView;

    open spec fn view(&self) -> TickView {
        TickView {
            symbol: self.symbol@,
            open_time_ms: self.open_time_ms as int,
            close_time_ms: self.close_time_ms as int,
            open: self.open as int,
            price: self.price as int,
            high: self.high as int,
            low: self.low as int,
            volume: self.volume as int,
            quote_volume: self.quote_volume as int,
        }
    }
}

/// The candle of one symbol in one timerange. `close` is `None` while the
/// window is open; `open_time_ms == 0` marks a candle that was never
/// initialized.
#[derive(Debug, PartialEq, Eq)]
pub struct Candle {
    pub symbol: String,
    pub timerange: Timerange,
    pub open_time_ms: i64,
    pub close_time_ms: i64,
    pub open: i64,
    pub high: i64,
    pub low: i64,
    pub price: i64,
    pub close: Option<i64>,
    pub volume: i128,
    pub quote_volume: i128,
}

/// The mathematical content of a [`Candle`]. Its numbers are unbounded, so
/// that a step can be stated before it is known to fit the machine.
pub struct CandleView {
    pub symbol: Seq<char>,
    pub timerange: Timerange,
    pub open_time_ms: int,
    pub close_time_ms: int,
    pub open: int,
    pub high: int,
    pub low: int,
    pub price: int,
    pub close: Option<int>,
    pub volume: int,
    pub quote_volume: int,
}

impl View for Candle {
    type V = CandleView;

    open spec fn view(&self) -> CandleView {
        CandleView {
            symbol: self.symbol@,
            timerange: self.timerange,
            open_time_ms: self.open_time_ms as int,
            close_time_ms: self.close_time_ms as int,
            open: self.open as int,
            high: self.high as int,
            low: self.low as int,
            price: self.price as int,
            close: match self.close {
                Some(close) => Some(close as int),
                None => None,
            },
            volume: self.volume as int,
            quote_volume: self.quote_volume as int,
        }
    }
}

/// What the engine hands out for a tick, in the order in which it is to be
/// acted on.
#[derive(Debug, PartialEq, Eq)]
pub enum OutputEvent {
    /// The tick opened a window more than [`GAP_LIMIT_MS`] after the close
    /// of this candle, which is therefore closed without a close price.
    ContinuityGap { candle: Candle, next_open_time_ms: i64 },
    /// The window of this candle has ended: broadcast it and persist it.
    Closed(Candle),
    /// The present state of an open candle: broadcast it.
    Live(Candle),
}

/// The mathematical content of an [`OutputEvent`].
pub enum OutputEventView {
    ContinuityGap { candle: CandleView, next_open_time_ms: int },
    Closed(CandleView),
    Live(CandleView),
}

impl View for OutputEvent {
    type V = OutputEventView;

    open spec fn view(&self) -> OutputEventView {
        match self {
            OutputEvent::ContinuityGap { candle, next_open_time_ms } => {
                OutputEventView::ContinuityGap {
                    candle: candle@,
                    next_open_time_ms: *next_open_time_ms as int,
                }
            },
            OutputEvent::Closed(candle) => OutputEventView::Closed(candle@),
            OutputEvent::Live(candle) => OutputEventView::Live(candle@),
        }
    }
}

impl OutputEventView {
    /// The candle that the event sends to the subscribers; the report of a
    /// gap sends none.
    pub open spec fn published(self) -> Option<CandleView> {
        match self {
            OutputEventView::ContinuityGap { .. } => None,
            OutputEventView::Closed(candle) => Some(candle),
            OutputEventView::Live(candle) => Some(candle),
        }
    }

    /// The candle that the event hands to the store: the closed one.
    pub open spec fn persisted(self) -> Option<CandleView> {
        match self {
            OutputEventView::Closed(candle) => Some(candle),
            _ => None,
        }
    }
}

impl OutputEvent {
    /// The candle to broadcast for this event, if any.
    pub fn published(&self) -> (candle: Option<&Candle>)
        ensures
            match candle {
                Some(sent) => self@.published() == Some(sent@),
                None => self@.published() is None,
            },
    {
        match self {
            OutputEvent::ContinuityGap { .. } => None,
            OutputEvent::Closed(candle) => Some(candle),
            OutputEvent::Live(candle) => Some(candle),
        }
    }

    /// The candle to persist for this event, if any.
    pub fn persisted(&self) -> (candle: Option<&Candle>)
        ensures
            match candle {
                Some(kept) => self@.persisted() == Some(kept@),
                None => self@.persisted() is None,
            },
    {
        match self {
            OutputEvent::Closed(candle) => Some(candle),
            _ => None,
        }
    }
}

/// The views of a sequence of events.
pub open spec fn event_views(events: Seq<OutputEvent>) -> Seq<OutputEventView> {
    Seq::new(events.len(), |i: int| events[i]@)
}

/// The views of a sequence of candles.
pub open spec fn candle_views(candles: Seq<Candle>) -> Seq<CandleView> {
    Seq::new(candles.len(), |i: int| candles[i]@)
}

/// Which of the three things a tick does to a candle.
pub enum Step {
    /// The candle was never initialized: the tick seeds it.
    Seed,
    /// The tick lies in the candle's window: the candle absorbs it.
    Merge,
    /// The tick lies outside the candle's window: the candle is closed and a
    /// new one seeded.
    Rollover,
}

/// Whether the number fits a 64-bit machine integer.
pub open spec fn fits_i64(x: int) -> bool {
    i64::MIN <= x <= i64::MAX
}

/// Whether the number fits a 128-bit machine integer.
pub open spec fn fits_i128(x: int) -> bool {
    i128::MIN <= x <= i128::MAX
}

/// The lesser of two numbers.
pub open spec fn min_int(a: int, b: int) -> int {
    if a <= b {
        a
    } else {
        b
    }
}

/// The greater of two numbers.
pub open spec fn max_int(a: int, b: int) -> int {
    if a >= b {
        a
    } else {
        b
    }
}

impl CandleView {
    /// The candle was never initialized.
    pub open spec fn is_blank(self) -> bool {
        self.open_time_ms == 0
    }

    /// Time `t` lies in the candle's window.
    pub open spec fn holds(self, t: int) -> bool {
        self.open_time_ms <= t < self.close_time_ms
    }

    /// Every number of the candle fits its machine integer: 64 bits for
    /// times and prices, 128 for the volumes.
    pub open spec fn representable(self) -> bool {
        &&& fits_i64(self.open_time_ms)
        &&& fits_i64(self.close_time_ms)
        &&& fits_i64(self.open)
        &&& fits_i64(self.high)
        &&& fits_i64(self.low)
        &&& fits_i64(self.price)
        &&& (self.close matches Some(close) ==> fits_i64(close))
        &&& fits_i128(self.volume)
        &&& fits_i128(self.quote_volume)
    }

    /// What a tick does to this candle.
    pub open spec fn step(self, tick: TickView) -> Step {
        if self.is_blank() {
            Step::Seed
        } else if self.holds(tick.open_time_ms) {
            Step::Merge
        } else {
            Step::Rollover
        }
    }

    /// The tick opens its window too long after this candle's close for the
    /// close price to be bridged.
    pub open spec fn gapped(self, tick: TickView) -> bool {
        tick.open_time_ms - self.close_time_ms > GAP_LIMIT_MS
    }

    /// This candle after it has absorbed a tick of its own window.
    pub open spec fn merged(self, tick: TickView, volume_delta: int, quote_volume_delta: int) -> CandleView {
        CandleView {
            low: min_int(self.low, tick.low),
            high: max_int(self.high, tick.high),
            price: tick.price,
            volume: self.volume + volume_delta,
            quote_volume: self.quote_volume + quote_volume_delta,
            ..self
        }
    }

    /// This candle as it is closed by a tick outside its window: the tick's
    /// open price becomes the close price unless there is a gap.
    pub open spec fn sealed(self, tick: TickView) -> CandleView {
        if self.gapped(tick) {
            self
        } else {
            CandleView { close: Some(tick.open), ..self }
        }
    }

    /// The candle that follows this one once the tick has been applied.
    /// A never-initialized candle takes the tick's own volumes; a candle
    /// that replaces a closed one starts from the deltas.
    pub open spec fn advanced(
        self,
        tick: TickView,
        timerange: Timerange,
        volume_delta: int,
        quote_volume_delta: int,
    ) -> CandleView {
        match self.step(tick) {
            Step::Seed => seeded(tick, timerange, tick.volume, tick.quote_volume),
            Step::Merge => self.merged(tick, volume_delta, quote_volume_delta),
            Step::Rollover => seeded(tick, timerange, volume_delta, quote_volume_delta),
        }
    }

    /// The events that applying the tick to this candle gives rise to: on a
    /// rollover the report of a gap, if there is one, and the closed candle;
    /// then, always, the live state of the candle that follows.
    pub open spec fn emitted(
        self,
        tick: TickView,
        timerange: Timerange,
        volume_delta: int,
        quote_volume_delta: int,
    ) -> Seq<OutputEventView> {
        let live = OutputEventView::Live(
            self.advanced(tick, timerange, volume_delta, quote_volume_delta),
        );
        match self.step(tick) {
            Step::Rollover => if self.gapped(tick) {
                seq![
                    OutputEventView::ContinuityGap {
                        candle: self,
                        next_open_time_ms: tick.open_time_ms,
                    },
                    OutputEventView::Closed(self.sealed(tick)),
                    live,
                ]
            } else {
                seq![OutputEventView::Closed(self.sealed(tick)), live]
            },
            _ => seq![live],
        }
    }
}

/// The never-initialized candle of a symbol and a timerange.
pub open spec fn blank(symbol: Seq<char>, timerange: Timerange) -> CandleView {
    CandleView {
        symbol,
        timerange,
        open_time_ms: 0,
        close_time_ms: 0,
        open: 0,
        high: 0,
        low: 0,
        price: 0,
        close: None,
        volume: 0,
        quote_volume: 0,
    }
}

/// The candle that a tick opens in a timerange, with the given volumes.
pub open spec fn seeded(tick: TickView, timerange: Timerange, volume: int, quote_volume: int) -> CandleView {
    CandleView {
        symbol: tick.symbol,
        timerange,
        open_time_ms: timerange.window(tick.open_time_ms).0,
        close_time_ms: timerange.window(tick.open_time_ms).1,
        open: tick.open,
        high: tick.high,
        low: tick.low,
        price: tick.price,
        close: None,
        volume,
        quote_volume,
    }
}

impl Clone for Tick {
    fn clone(&self) -> (copy: Tick)
        ensures
            copy == *self,
    {
        Tick {
            symbol: self.symbol.clone(),
            open_time_ms: self.open_time_ms,
            close_time_ms: self.close_time_ms,
            open: self.open,
            price: self.price,
            high: self.high,
            low: self.low,
            volume: self.volume,
            quote_volume: self.quote_volume,
        }
    }
}

impl Clone for Candle {
    fn clone(&self) -> (copy: Candle)
        ensures
            copy == *self,
    {
        Candle {
            symbol: self.symbol.clone(),
            timerange: self.timerange,
            open_time_ms: self.open_time_ms,
            close_time_ms: self.close_time_ms,
            open: self.open,
            high: self.high,
            low: self.low,
            price: self.price,
            close: self.close,
            volume: self.volume,
            quote_volume: self.quote_volume,
        }
    }
}

/// `base + delta` as a machine integer, if it is one.
fn shifted(base: i128, delta: i128) -> (sum: Option<i128>)
    ensures
        sum == if fits_i128(base + delta) {
            Some((base + delta) as i128)
        } else {
            None
        },
{
    base.checked_add(delta)
}

impl Candle {
    /// The never-initialized candle of a symbol and a timerange.
    pub fn blank(symbol: &str, timerange: Timerange) -> (candle: Candle)
        ensures
            candle@ == blank(symbol@, timerange),
    {
        Candle {
            symbol: symbol.to_owned(),
            timerange,
            open_time_ms: 0,
            close_time_ms: 0,
            open: 0,
            high: 0,
            low: 0,
            price: 0,
            close: None,
            volume: 0,
            quote_volume: 0,
        }
    }

    /// The candle that a tick opens in a timerange, with the given volumes.
    pub fn seeded(tick: &Tick, timerange: Timerange, volume: i128, quote_volume: i128) -> (candle: Candle)
        requires
            tick.open_time_ms <= MAX_TIME_MS,
        ensures
            candle@ == seeded(tick@, timerange, volume as int, quote_volume as int),
    {
        proof {
            lemma_window_fits(tick.open_time_ms as int, timerange);
        }
        let window = timerange.window_at(tick.open_time_ms);
        Candle {
            symbol: tick.symbol.clone(),
            timerange,
            open_time_ms: window.0,
            close_time_ms: window.1,
            open: tick.open,
            high: tick.high,
            low: tick.low,
            price: tick.price,
            close: None,
            volume,
            quote_volume,
        }
    }

    /// Whether the candle was never initialized.
    pub fn is_blank(&self) -> (blank: bool)
        ensures
            blank == self@.is_blank(),
    {
        self.open_time_ms == 0
    }

    /// Whether a time lies in the candle's window.
    pub fn holds(&self, time_ms: i64) -> (inside: bool)
        ensures
            inside == self@.holds(time_ms as int),
    {
        self.open_time_ms <= time_ms && time_ms < self.close_time_ms
    }

    /// Whether a tick opens its window too long after this candle's close.
    pub fn gapped(&self, tick: &Tick) -> (gap: bool)
        ensures
            gap == self@.gapped(tick@),
    {
        (tick.open_time_ms as i128) - (self.close_time_ms as i128) > (GAP_LIMIT_MS as i128)
    }

    /// Applies a tick to the candle. Gives the candle that follows and the
    /// events to act on, or `None` where a volume of the candle that follows
    /// does not fit its machine integer.
    pub fn advance(
        &self,
        tick: &Tick,
        timerange: Timerange,
        volume_delta: i128,
        quote_volume_delta: i128,
    ) -> (out: Option<(Candle, Vec<OutputEvent>)>)
        requires
            tick.open_time_ms <= MAX_TIME_MS,
        ensures
            out is Some <==> self@.advanced(
                tick@,
                timerange,
                volume_delta as int,
                quote_volume_delta as int,
            ).representable(),
            out matches Some((next, events)) ==> {
                &&& next@ == self@.advanced(
                    tick@,
                    timerange,
                    volume_delta as int,
                    quote_volume_delta as int,
                )
                &&& event_views(events@) == self@.emitted(
                    tick@,
                    timerange,
                    volume_delta as int,
                    quote_volume_delta as int,
                )
            },
    {
        proof {
            lemma_window_fits(tick.open_time_ms as int, timerange);
        }
        let mut events: Vec<OutputEvent> = Vec::new();
        let next: Candle;
        if self.is_blank() {
            next = Candle::seeded(tick, timerange, tick.volume, tick.quote_volume);
        } else if self.holds(tick.open_time_ms) {
            let volume = match shifted(self.volume, volume_delta) {
                Some(volume) => volume,
                None => {
                    return None;
                },
            };
            let quote_volume = match shifted(self.quote_volume, quote_volume_delta) {
                Some(quote_volume) => quote_volume,
                None => {
                    return None;
                },
            };
            next =
            Candle {
                symbol: self.symbol.clone(),
                timerange: self.timerange,
                open_time_ms: self.open_time_ms,
                close_time_ms: self.close_time_ms,
                open: self.open,
                high: if self.high >= tick.high {
                    self.high
                } else {
                    tick.high
                },
                low: if self.low <= tick.low {
                    self.low
                } else {
                    tick.low
                },
                price: tick.price,
                close: self.close,
                volume,
                quote_volume,
            };
        } else {
            let mut last = self.clone();
            if self.gapped(tick) {
                events.push(
                    OutputEvent::ContinuityGap {
                        candle: self.clone(),
                        next_open_time_ms: tick.open_time_ms,
                    },
                );
            } else {
                last.close = Some(tick.open);
            }
            events.push(OutputEvent::Closed(last));
            next = Candle::seeded(tick, timerange, volume_delta, quote_volume_delta);
        }
        events.push(OutputEvent::Live(next.clone()));
        Some((next, events))
    }
}

/// Up to [`MAX_TIME_MS`] the window of a time fits a machine integer in
/// every timerange.
pub proof fn lemma_window_fits(t: int, timerange: Timerange)
    requires
        i64::MIN <= t <= MAX_TIME_MS,
    ensures
        fits_i64(timerange.window(t).0),
        fits_i64(timerange.window(t).1),
{
    let d = timerange.duration_ms();
    if t >= 0 {
        vstd::arithmetic::div_mod::lemma_mod_pos_bound(t, d);
    } else {
        vstd::arithmetic::div_mod::lemma_mod_pos_bound(-t, d);
    }
}

/// Two ticks with one open time that lies in the window of an initialized
/// candle never roll it over: each gives a single live event, and the candle
/// ends with the lowest low and the highest high of itself and the two
/// ticks, the price of the second tick, and its window untouched.
pub proof fn lemma_same_window_twice(
    candle: CandleView,
    first: TickView,
    second: TickView,
    timerange: Timerange,
    first_delta: (int, int),
    second_delta: (int, int),
)
    requires
        !candle.is_blank(),
        candle.holds(first.open_time_ms),
        second.open_time_ms == first.open_time_ms,
    ensures
        ({
            let between = candle.advanced(first, timerange, first_delta.0, first_delta.1);
            let after = between.advanced(second, timerange, second_delta.0, second_delta.1);
            &&& candle.step(first) is Merge
            &&& between.step(second) is Merge
            &&& candle.emitted(first, timerange, first_delta.0, first_delta.1)
                == seq![OutputEventView::Live(between)]
            &&& between.emitted(second, timerange, second_delta.0, second_delta.1)
                == seq![OutputEventView::Live(after)]
            &&& after.high == max_int(candle.high, max_int(first.high, second.high))
            &&& after.low == min_int(candle.low, min_int(first.low, second.low))
            &&& after.price == second.price
            &&& after.open == candle.open
            &&& after.close == candle.close
            &&& after.open_time_ms == candle.open_time_ms
            &&& after.close_time_ms == candle.close_time_ms
            &&& after.volume == candle.volume + first_delta.0 + second_delta.0
            &&& after.quote_volume == candle.quote_volume + first_delta.1 + second_delta.1
        }),
{
}

/// A tick that seeds a candle and lies in the window it opens, followed by
/// a tick with the same open time: the second tick does not roll the candle
/// over, and the candle ends with the lower low and the higher high of the
/// two ticks and the price of the second. The window must not open at time
/// zero, where the seeded candle would still count as never initialized.
pub proof fn lemma_seed_then_same_open_time(
    candle: CandleView,
    first: TickView,
    second: TickView,
    timerange: Timerange,
    first_delta: (int, int),
    second_delta: (int, int),
)
    requires
        candle.is_blank(),
        timerange.window(first.open_time_ms).0 != 0,
        timerange.window(first.open_time_ms).0 <= first.open_time_ms < timerange.window(
            first.open_time_ms,
        ).1,
        second.open_time_ms == first.open_time_ms,
    ensures
        ({
            let between = candle.advanced(first, timerange, first_delta.0, first_delta.1);
            let after = between.advanced(second, timerange, second_delta.0, second_delta.1);
            &&& candle.step(first) is Seed
            &&& between.step(second) is Merge
            &&& between.emitted(second, timerange, second_delta.0, second_delta.1)
                == seq![OutputEventView::Live(after)]
            &&& after.high == max_int(first.high, second.high)
            &&& after.low == min_int(first.low, second.low)
            &&& after.price == second.price
            &&& after.open == first.open
            &&& after.volume == first.volume + second_delta.0
            &&& after.quote_volume == first.quote_volume + second_delta.1
        }),
{
}

/// Rollover closes and reseeds. A tick outside the window of an initialized
/// candle, no more than [`GAP_LIMIT_MS`] after its close, gives exactly two
/// events in this order: the old candle, closed at the tick's open price
/// and otherwise as it was, and the live state of the candle that the tick
/// seeds, which starts from the deltas.
pub proof fn lemma_rollover_closes_and_reseeds(
    candle: CandleView,
    tick: TickView,
    timerange: Timerange,
    volume_delta: int,
    quote_volume_delta: int,
)
    requires
        !candle.is_blank(),
        !candle.holds(tick.open_time_ms),
        tick.open_time_ms - candle.close_time_ms <= GAP_LIMIT_MS,
    ensures
        candle.step(tick) is Rollover,
        candle.advanced(tick, timerange, volume_delta, quote_volume_delta) == seeded(
            tick,
            timerange,
            volume_delta,
            quote_volume_delta,
        ),
        candle.emitted(tick, timerange, volume_delta, quote_volume_delta) == seq![
            OutputEventView::Closed(CandleView { close: Some(tick.open), ..candle }),
            OutputEventView::Live(seeded(tick, timerange, volume_delta, quote_volume_delta)),
        ],
{
}

/// A continuity gap suppresses bridging. A tick that opens its window more
/// than [`GAP_LIMIT_MS`] after the close of an initialized candle gives
/// exactly three events in this order: one report of the gap, the old
/// candle closed exactly as it was, its close price untouched, and the live
/// state of the candle that the tick seeds.
pub proof fn lemma_gap_suppresses_bridging(
    candle: CandleView,
    tick: TickView,
    timerange: Timerange,
    volume_delta: int,
    quote_volume_delta: int,
)
    requires
        !candle.is_blank(),
        tick.open_time_ms - candle.close_time_ms > GAP_LIMIT_MS,
    ensures
        candle.step(tick) is Rollover,
        candle.advanced(tick, timerange, volume_delta, quote_volume_delta) == seeded(
            tick,
            timerange,
            volume_delta,
            quote_volume_delta,
        ),
        candle.emitted(tick, timerange, volume_delta, quote_volume_delta) == seq![
            OutputEventView::ContinuityGap { candle, next_open_time_ms: tick.open_time_ms },
            OutputEventView::Closed(candle),
            OutputEventView::Live(seeded(tick, timerange, volume_delta, quote_volume_delta)),
        ],
{
}

/// Every tick gives every candle exactly one live event, the last of the
/// candle's events, which shows the candle as it stands after the tick.
pub proof fn lemma_one_live_event(
    candle: CandleView,
    tick: TickView,
    timerange: Timerange,
    volume_delta: int,
    quote_volume_delta: int,
)
    ensures
        ({
            let events = candle.emitted(tick, timerange, volume_delta, quote_volume_delta);
            &&& 1 <= events.len() <= 3
            &&& events.last() == OutputEventView::Live(
                candle.advanced(tick, timerange, volume_delta, quote_volume_delta),
            )
            &&& forall|i: int| 0 <= i < events.len() - 1 ==> !(#[trigger] events[i] is Live)
        }),
{
}

} // verus!
