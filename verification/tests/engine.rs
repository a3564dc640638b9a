use candle_feed::candle::{Candle, OutputEvent, Tick};
use candle_feed::catalog::TimerangeCatalog;
use candle_feed::engine::{load_last_candles, proceed_data, CandleEngine, IngestError};
use candle_feed::store::StoredCandle;
use candle_feed::timerange::{Timerange, MAX_TIME_MS};

const T0: i64 = 1_700_000_100_000;

fn names(list: &[&str]) -> Vec<String> {
    list.iter().map(|name| name.to_string()).collect()
}

fn engine_for(timeranges: &[&str], symbols: &[&str]) -> CandleEngine {
    let catalog = TimerangeCatalog::new(&names(timeranges)).unwrap();
    load_last_candles(catalog, &names(symbols), &Vec::new())
}

fn tick(symbol: &str, time: i64, open: i64, high: i64, low: i64, price: i64, volume: i128) -> Tick {
    Tick {
        symbol: symbol.to_string(),
        open_time_ms: time,
        close_time_ms: time + 59_999,
        open,
        price,
        high,
        low,
        volume,
        quote_volume: volume * 100,
    }
}

fn candle_of(engine: &CandleEngine, symbol: &str, timerange: Timerange) -> Candle {
    engine.candle(symbol, timerange).unwrap()
}

#[test]
fn three_ticks_over_two_base_windows() {
    let mut engine = engine_for(&["1m", "5m"], &["X"]);

    let first = proceed_data(&mut engine, &tick("X", T0, 100, 101, 99, 100, 5)).unwrap();
    assert_eq!(first.len(), 2);
    let one = candle_of(&engine, "X", Timerange::OneMinute);
    assert_eq!(first[0], OutputEvent::Live(one.clone()));
    assert_eq!(first[1], OutputEvent::Live(candle_of(&engine, "X", Timerange::FiveMinutes)));
    assert_eq!((one.open_time_ms, one.close_time_ms), (T0, T0 + 59_000));
    assert_eq!((one.open, one.high, one.low, one.price), (100, 101, 99, 100));
    assert_eq!((one.volume, one.quote_volume, one.close), (5, 500, None));

    let second = proceed_data(&mut engine, &tick("X", T0 + 30_000, 100, 103, 99, 102, 9)).unwrap();
    assert_eq!(second.len(), 2);
    let one = candle_of(&engine, "X", Timerange::OneMinute);
    assert_eq!((one.high, one.low, one.price, one.volume), (103, 99, 102, 9));
    assert_eq!(one.quote_volume, 900);
    assert_eq!(engine.last_base_volumes("X"), Some((9, 900)));

    let third = proceed_data(&mut engine, &tick("X", T0 + 61_000, 90, 91, 89, 90, 3)).unwrap();
    assert_eq!(third.len(), 3);
    let closed = Candle {
        symbol: "X".to_string(),
        timerange: Timerange::OneMinute,
        open_time_ms: T0,
        close_time_ms: T0 + 59_000,
        open: 100,
        high: 103,
        low: 99,
        price: 102,
        close: Some(90),
        volume: 9,
        quote_volume: 900,
    };
    assert_eq!(third[0], OutputEvent::Closed(closed));
    let opened = Candle {
        symbol: "X".to_string(),
        timerange: Timerange::OneMinute,
        open_time_ms: T0 + 60_000,
        close_time_ms: T0 + 119_000,
        open: 90,
        high: 91,
        low: 89,
        price: 90,
        close: None,
        volume: 3,
        quote_volume: 300,
    };
    assert_eq!(third[1], OutputEvent::Live(opened.clone()));
    assert_eq!(candle_of(&engine, "X", Timerange::OneMinute), opened);
    let five = Candle {
        symbol: "X".to_string(),
        timerange: Timerange::FiveMinutes,
        open_time_ms: T0,
        close_time_ms: T0 + 299_000,
        open: 100,
        high: 103,
        low: 89,
        price: 90,
        close: None,
        volume: 12,
        quote_volume: 1_200,
    };
    assert_eq!(third[2], OutputEvent::Live(five.clone()));
    assert_eq!(candle_of(&engine, "X", Timerange::FiveMinutes), five);
    assert_eq!(engine.last_base_volumes("X"), Some((3, 300)));
}

#[test]
fn cumulative_volumes_become_deltas() {
    let mut engine = engine_for(&["1m", "5m", "1h"], &["X"]);
    let reported = [5, 12, 12, 20];
    let deltas = [5, 7, 0, 8];
    let mut total = 0;
    let mut before = 0;
    for (step, volume) in reported.iter().enumerate() {
        let time = T0 + 1_000 * step as i64;
        proceed_data(&mut engine, &tick("X", time, 10, 11, 9, 10, *volume)).unwrap();
        total += deltas[step];
        for timerange in [Timerange::OneMinute, Timerange::FiveMinutes, Timerange::OneHour] {
            let candle = candle_of(&engine, "X", timerange);
            assert_eq!(candle.volume - before, deltas[step]);
            assert_eq!(candle.volume, total);
        }
        assert_eq!(engine.last_base_volumes("X"), Some((*volume, *volume * 100)));
        before = total;
    }
    assert_eq!(total, 20);
}

#[test]
fn same_open_time_twice_does_not_roll_over() {
    let mut engine = engine_for(&["1m"], &["X"]);
    proceed_data(&mut engine, &tick("X", T0, 50, 60, 40, 55, 1)).unwrap();
    let events = proceed_data(&mut engine, &tick("X", T0, 50, 58, 35, 57, 1)).unwrap();
    assert_eq!(events.len(), 1);
    let candle = candle_of(&engine, "X", Timerange::OneMinute);
    assert_eq!(events[0], OutputEvent::Live(candle.clone()));
    assert_eq!((candle.high, candle.low, candle.price), (60, 35, 57));
    assert_eq!((candle.open_time_ms, candle.volume), (T0, 1));
}

#[test]
fn tick_in_the_last_second_of_a_window_rolls_it_over_onto_itself() {
    let mut engine = engine_for(&["1m"], &["X"]);
    proceed_data(&mut engine, &tick("X", T0, 50, 60, 40, 55, 4)).unwrap();
    let events = proceed_data(&mut engine, &tick("X", T0 + 59_500, 56, 57, 54, 56, 6)).unwrap();
    assert_eq!(events.len(), 2);
    match &events[0] {
        OutputEvent::Closed(closed) => {
            assert_eq!(closed.close, Some(56));
            assert_eq!(closed.volume, 4);
        }
        other => panic!("expected a closed candle, got {:?}", other),
    }
    let candle = candle_of(&engine, "X", Timerange::OneMinute);
    assert_eq!((candle.open_time_ms, candle.close_time_ms), (T0, T0 + 59_000));
    assert_eq!((candle.open, candle.volume), (56, 6));
}

#[test]
fn gap_of_more_than_ten_seconds_is_reported_and_not_bridged() {
    let mut engine = engine_for(&["1m"], &["X"]);
    proceed_data(&mut engine, &tick("X", T0, 50, 60, 40, 55, 4)).unwrap();
    let old = candle_of(&engine, "X", Timerange::OneMinute);
    let late = T0 + 59_000 + 10_001;
    let events = proceed_data(&mut engine, &tick("X", late, 70, 71, 69, 70, 2)).unwrap();
    assert_eq!(events.len(), 3);
    assert_eq!(
        events[0],
        OutputEvent::ContinuityGap { candle: old.clone(), next_open_time_ms: late }
    );
    assert_eq!(events[1], OutputEvent::Closed(old));
    let opened = candle_of(&engine, "X", Timerange::OneMinute);
    assert_eq!(events[2], OutputEvent::Live(opened.clone()));
    assert_eq!((opened.open_time_ms, opened.volume), (T0 + 60_000, 2));
}

#[test]
fn gap_of_exactly_ten_seconds_is_bridged() {
    let mut engine = engine_for(&["1m"], &["X"]);
    proceed_data(&mut engine, &tick("X", T0, 50, 60, 40, 55, 4)).unwrap();
    let events =
        proceed_data(&mut engine, &tick("X", T0 + 59_000 + 10_000, 70, 71, 69, 70, 2)).unwrap();
    assert_eq!(events.len(), 2);
    match &events[0] {
        OutputEvent::Closed(closed) => assert_eq!(closed.close, Some(70)),
        other => panic!("expected a closed candle, got {:?}", other),
    }
}

#[test]
fn tick_before_the_window_rolls_over_and_bridges() {
    let mut engine = engine_for(&["1m"], &["X"]);
    proceed_data(&mut engine, &tick("X", T0, 50, 60, 40, 55, 4)).unwrap();
    let events = proceed_data(&mut engine, &tick("X", T0 - 120_000, 30, 31, 29, 30, 1)).unwrap();
    assert_eq!(events.len(), 2);
    let candle = candle_of(&engine, "X", Timerange::OneMinute);
    assert_eq!(candle.open_time_ms, T0 - 120_000);
}

#[test]
fn tick_without_symbol_changes_nothing() {
    let mut engine = engine_for(&["1m", "5m"], &["X", ""]);
    proceed_data(&mut engine, &tick("X", T0, 50, 60, 40, 55, 4)).unwrap();
    let before = candle_of(&engine, "X", Timerange::OneMinute);
    let blank = candle_of(&engine, "", Timerange::OneMinute);
    let events = proceed_data(&mut engine, &tick("", T0 + 1, 1, 2, 0, 1, 9)).unwrap();
    assert!(events.is_empty());
    assert_eq!(candle_of(&engine, "X", Timerange::OneMinute), before);
    assert_eq!(candle_of(&engine, "", Timerange::OneMinute), blank);
    assert_eq!(engine.last_base_volumes("X"), Some((4, 400)));
    assert_eq!(engine.last_base_volumes(""), Some((0, 0)));
}

#[test]
fn unknown_symbol_is_an_error() {
    let mut engine = engine_for(&["1m"], &["X"]);
    let out = proceed_data(&mut engine, &tick("Y", T0, 50, 60, 40, 55, 4));
    assert_eq!(out, Err(IngestError::UnknownSymbol));
    assert!(!engine.has_symbol("Y"));
    assert!(engine.has_symbol("X"));
    assert_eq!(candle_of(&engine, "X", Timerange::OneMinute).open_time_ms, 0);
}

#[test]
fn time_past_the_limit_is_an_error() {
    let mut engine = engine_for(&["1m"], &["X"]);
    let out = proceed_data(&mut engine, &tick("X", MAX_TIME_MS + 1, 50, 60, 40, 55, 4));
    assert_eq!(out, Err(IngestError::TimeOutOfRange));
    assert_eq!(candle_of(&engine, "X", Timerange::OneMinute).open_time_ms, 0);
    let mut last = tick("X", MAX_TIME_MS, 50, 60, 40, 55, 4);
    last.close_time_ms = MAX_TIME_MS;
    assert!(proceed_data(&mut engine, &last).is_ok());
}

#[test]
fn volume_that_leaves_the_range_is_an_error_and_changes_nothing() {
    let mut engine = engine_for(&["1m", "5m"], &["X"]);
    let mut big = tick("X", T0, 50, 60, 40, 55, 0);
    big.volume = i128::MAX;
    big.quote_volume = 0;
    proceed_data(&mut engine, &big).unwrap();
    let one = candle_of(&engine, "X", Timerange::OneMinute);
    let five = candle_of(&engine, "X", Timerange::FiveMinutes);
    let mut next = tick("X", T0 + 60_000, 50, 60, 40, 55, 0);
    next.volume = 1;
    next.quote_volume = 0;
    assert_eq!(proceed_data(&mut engine, &next), Err(IngestError::VolumeOutOfRange));
    assert_eq!(candle_of(&engine, "X", Timerange::OneMinute), one);
    assert_eq!(candle_of(&engine, "X", Timerange::FiveMinutes), five);
    assert_eq!(engine.last_base_volumes("X"), Some((i128::MAX, 0)));
}

#[test]
fn volume_beyond_64_bits_is_taken_in() {
    let mut engine = engine_for(&["1m", "5m"], &["X"]);
    let large: i128 = 5_000_000_000_000_i128 * 100_000_000;
    assert!(large > i64::MAX as i128);
    proceed_data(&mut engine, &tick("X", T0, 50, 60, 40, 55, large)).unwrap();
    proceed_data(&mut engine, &tick("X", T0 + 60_000, 50, 60, 40, 55, large)).unwrap();
    assert_eq!(candle_of(&engine, "X", Timerange::OneMinute).volume, large);
    assert_eq!(candle_of(&engine, "X", Timerange::FiveMinutes).volume, 2 * large);
}

#[test]
fn delta_that_leaves_the_range_is_an_error() {
    let mut engine = engine_for(&["1m"], &["X"]);
    let mut low = tick("X", T0, 50, 60, 40, 55, 0);
    low.volume = i128::MIN;
    low.quote_volume = 0;
    proceed_data(&mut engine, &low).unwrap();
    let mut high = tick("X", T0 + 1, 50, 60, 40, 55, 0);
    high.volume = 1;
    high.quote_volume = 0;
    assert_eq!(proceed_data(&mut engine, &high), Err(IngestError::VolumeOutOfRange));
    assert_eq!(candle_of(&engine, "X", Timerange::OneMinute).volume, i128::MIN);
}

#[test]
fn shrinking_cumulative_volume_gives_a_negative_delta() {
    let mut engine = engine_for(&["1m"], &["X"]);
    proceed_data(&mut engine, &tick("X", T0, 50, 60, 40, 55, 10)).unwrap();
    proceed_data(&mut engine, &tick("X", T0 + 1, 50, 60, 40, 55, 7)).unwrap();
    assert_eq!(candle_of(&engine, "X", Timerange::OneMinute).volume, 7);
}

#[test]
fn window_that_opens_at_time_zero_is_seeded_again_by_every_tick() {
    let mut engine = engine_for(&["1m", "5m"], &["X"]);
    proceed_data(&mut engine, &tick("X", 0, 100, 101, 99, 100, 5)).unwrap();
    proceed_data(&mut engine, &tick("X", 30_000, 100, 103, 99, 102, 9)).unwrap();
    let events = proceed_data(&mut engine, &tick("X", 61_000, 90, 91, 89, 90, 3)).unwrap();
    assert_eq!(events.len(), 2);
    let one = candle_of(&engine, "X", Timerange::OneMinute);
    assert_eq!((one.open_time_ms, one.close_time_ms), (60_000, 119_000));
    assert_eq!((one.high, one.volume), (91, 3));
    let five = candle_of(&engine, "X", Timerange::FiveMinutes);
    assert_eq!((five.open_time_ms, five.high, five.volume), (0, 91, 3));
}

#[test]
fn symbols_are_kept_apart() {
    let mut engine = engine_for(&["1m"], &["X", "Y"]);
    proceed_data(&mut engine, &tick("X", T0, 50, 60, 40, 55, 4)).unwrap();
    proceed_data(&mut engine, &tick("Y", T0, 5, 6, 4, 5, 8)).unwrap();
    assert_eq!(candle_of(&engine, "X", Timerange::OneMinute).volume, 4);
    assert_eq!(candle_of(&engine, "Y", Timerange::OneMinute).volume, 8);
    assert_eq!(candle_of(&engine, "Y", Timerange::OneMinute).symbol, "Y");
}

#[test]
fn events_follow_the_catalog_order() {
    let mut engine = engine_for(&["5m", "1m", "1h"], &["X"]);
    let events = proceed_data(&mut engine, &tick("X", T0, 50, 60, 40, 55, 4)).unwrap();
    let order: Vec<Timerange> = events
        .iter()
        .map(|event| match event {
            OutputEvent::Live(candle) => candle.timerange,
            other => panic!("expected a live candle, got {:?}", other),
        })
        .collect();
    assert_eq!(
        order,
        vec![Timerange::FiveMinutes, Timerange::OneMinute, Timerange::OneHour]
    );
    let events = proceed_data(&mut engine, &tick("X", T0 + 1_000, 50, 60, 40, 55, 9)).unwrap();
    assert_eq!(events.len(), 3);
    assert_eq!(candle_of(&engine, "X", Timerange::FiveMinutes).volume, 9);
    assert_eq!(candle_of(&engine, "X", Timerange::OneHour).volume, 9);
}

fn row(symbol: &str, timerange: &str, open_time: i64, volume: i128) -> StoredCandle {
    StoredCandle {
        symbol: symbol.to_string(),
        timerange: timerange.to_string(),
        open_time_ms: open_time,
        close_time_ms: open_time + 59_000,
        open: 10,
        high: 12,
        low: 8,
        price: 11,
        close: Some(12),
        volume,
        quote_volume: volume * 3,
    }
}

#[test]
fn startup_without_rows_gives_blank_candles() {
    let engine = engine_for(&["1m", "5m"], &["X", "Y", "X"]);
    assert_eq!(engine.catalog().len(), 2);
    assert_eq!(
        candle_of(&engine, "X", Timerange::FiveMinutes),
        Candle::blank("X", Timerange::FiveMinutes)
    );
    assert_eq!(engine.last_base_volumes("Y"), Some((0, 0)));
    assert_eq!(engine.candle("X", Timerange::OneHour), None);
    assert_eq!(engine.candle("Z", Timerange::OneMinute), None);
    assert_eq!(engine.last_base_volumes("Z"), None);
}

#[test]
fn startup_takes_matching_rows_and_ignores_the_others() {
    let catalog = TimerangeCatalog::new(&names(&["1m", "5m"])).unwrap();
    let rows = vec![
        row("X", "1m", T0, 7),
        row("Z", "1m", T0, 1),
        row("X", "1h", T0, 2),
        row("X", "90s", T0, 3),
        row("Y", "5m", T0, 4),
        row("Y", "5m", T0 + 300_000, 5),
    ];
    let engine = load_last_candles(catalog, &names(&["X", "Y"]), &rows);
    let restored = Candle {
        symbol: "X".to_string(),
        timerange: Timerange::OneMinute,
        open_time_ms: T0,
        close_time_ms: T0 + 59_000,
        open: 10,
        high: 12,
        low: 8,
        price: 11,
        close: None,
        volume: 7,
        quote_volume: 21,
    };
    assert_eq!(candle_of(&engine, "X", Timerange::OneMinute), restored);
    assert_eq!(
        candle_of(&engine, "X", Timerange::FiveMinutes),
        Candle::blank("X", Timerange::FiveMinutes)
    );
    assert_eq!(candle_of(&engine, "Y", Timerange::FiveMinutes).open_time_ms, T0 + 300_000);
    assert_eq!(candle_of(&engine, "Y", Timerange::FiveMinutes).volume, 5);
    assert!(!engine.has_symbol("Z"));
    assert_eq!(engine.last_base_volumes("X"), Some((0, 0)));
}

#[test]
fn restored_candle_absorbs_the_next_tick_of_its_window() {
    let catalog = TimerangeCatalog::new(&names(&["1m"])).unwrap();
    let engine_rows = vec![row("X", "1m", T0, 7)];
    let mut engine = load_last_candles(catalog, &names(&["X"]), &engine_rows);
    let events = proceed_data(&mut engine, &tick("X", T0 + 5_000, 10, 13, 9, 12, 2)).unwrap();
    assert_eq!(events.len(), 1);
    let candle = candle_of(&engine, "X", Timerange::OneMinute);
    assert_eq!((candle.high, candle.low, candle.price), (13, 8, 12));
    assert_eq!(candle.volume, 9);
}
