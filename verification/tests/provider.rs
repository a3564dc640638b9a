use candle_feed::candle::Tick;
use candle_feed::provider::{
    binance_stream_url, build_stream_url, parse_candle, parse_message, tick_of_members, Member,
};

const KLINE: &str = r#"{"stream":"btcusdt@kline_1m","data":{"e":"kline","E":1700000076123,"s":"BTCUSDT","k":{"t":1700000040000,"T":1700000099999,"s":"BTCUSDT","i":"1m","f":100,"L":200,"o":"27123.45000000","c":"27125.10000000","h":"27130.00000000","l":"27120.99000000","v":"12.50000000","n":100,"x":false,"q":"339056.25000000","V":"6.00000000","Q":"162747.00000000","B":"0"}}}"#;

fn expected() -> Tick {
    Tick {
        symbol: "BTCUSDT".to_string(),
        open_time_ms: 1_700_000_040_000,
        close_time_ms: 1_700_000_099_999,
        open: 2_712_345_000_000,
        price: 2_712_510_000_000,
        high: 2_713_000_000_000,
        low: 2_712_099_000_000,
        volume: 1_250_000_000,
        quote_volume: 33_905_625_000_000,
    }
}

#[test]
fn kline_message_becomes_a_tick() {
    assert_eq!(parse_message(KLINE), Some(expected()));
}

#[test]
fn provider_name_decides_who_reads() {
    assert_eq!(parse_candle(KLINE, "Binance"), Some(expected()));
    assert_eq!(parse_candle(KLINE, "binance"), None);
    assert_eq!(parse_candle(KLINE, "Kraken"), None);
    assert_eq!(parse_candle(KLINE, ""), None);
}

#[test]
fn message_that_is_no_json_gives_no_tick() {
    assert_eq!(parse_message(""), None);
    assert_eq!(parse_message("ping"), None);
    assert_eq!(parse_message("{\"data\":"), None);
}

#[test]
fn message_without_kline_gives_no_tick() {
    assert_eq!(parse_message("{}"), None);
    assert_eq!(parse_message("[1,2,3]"), None);
    assert_eq!(parse_message(r#"{"data":{"k":null}}"#), None);
    assert_eq!(parse_message(r#"{"data":{"k":[1]}}"#), None);
    assert_eq!(parse_message(r#"{"result":null,"id":1}"#), None);
}

fn with(replace: &str, by: &str) -> String {
    assert!(KLINE.contains(replace));
    KLINE.replacen(replace, by, 1)
}

#[test]
fn member_of_the_wrong_kind_gives_no_tick() {
    assert_eq!(parse_message(&with(r#""t":1700000040000"#, r#""t":"1700000040000""#)), None);
    assert_eq!(parse_message(&with(r#""t":1700000040000"#, r#""t":1700000040000.5"#)), None);
    assert_eq!(parse_message(&with(r#""T":1700000099999"#, r#""T":null"#)), None);
    assert_eq!(parse_message(&with(r#""o":"27123.45000000""#, r#""o":27123.45"#)), None);
    assert_eq!(parse_message(&with(r#""c":"27125.10000000""#, r#""c":"abc""#)), None);
    assert_eq!(parse_message(&with(r#""i":"1m""#, r#""i":1"#)), None);
    assert_eq!(parse_message(&with(r#""k":{"t":1700000040000,"T":1700000099999,"s":"BTCUSDT""#, r#""k":{"t":1700000040000,"T":1700000099999,"s":7"#)), None);
}

#[test]
fn missing_member_gives_no_tick() {
    assert_eq!(parse_message(&with(r#""v":"12.50000000","#, "")), None);
    assert_eq!(parse_message(&with(r#""i":"1m","#, "")), None);
    assert_eq!(parse_message(&with(r#""t":1700000040000,"#, "")), None);
}

#[test]
fn kline_of_nine_members_becomes_a_tick_without_quote_volume() {
    let message = r#"{"data":{"k":{"t":1700000040000,"T":1700000099999,"s":"BTCUSDT","i":"1m","o":"100.5","c":"101.0","h":"102.0","l":"99.5","v":"12.5"}}}"#;
    assert_eq!(
        parse_message(message),
        Some(Tick {
            symbol: "BTCUSDT".to_string(),
            open_time_ms: 1_700_000_040_000,
            close_time_ms: 1_700_000_099_999,
            open: 10_050_000_000,
            price: 10_100_000_000,
            high: 10_200_000_000,
            low: 9_950_000_000,
            volume: 1_250_000_000,
            quote_volume: 0,
        })
    );
}

#[test]
fn quote_volume_that_is_no_amount_counts_as_none() {
    let mut expected = expected();
    expected.quote_volume = 0;
    assert_eq!(parse_message(&with(r#""q":"339056.25000000","#, "")), Some(expected.clone()));
    assert_eq!(
        parse_message(&with(r#""q":"339056.25000000""#, r#""q":339056.25"#)),
        Some(expected.clone())
    );
    assert_eq!(
        parse_message(&with(r#""q":"339056.25000000""#, r#""q":"many""#)),
        Some(expected)
    );
}

#[test]
fn kline_is_looked_for_under_data_and_k_only() {
    let inner = r#"{"t":1,"T":2,"s":"X","i":"1m","o":"1","c":"1","h":"1","l":"1","v":"1"}"#;
    assert!(parse_message(&format!(r#"{{"data":{{"k":{}}}}}"#, inner)).is_some());
    assert_eq!(parse_message(&format!(r#"{{"k":{}}}"#, inner)), None);
    assert_eq!(parse_message(&format!(r#"{{"data":{}}}"#, inner)), None);
    assert_eq!(parse_message(&format!(r#"{{"k":{{"data":{}}}}}"#, inner)), None);
    assert_eq!(parse_message(&format!(r#"{{"data":{{"K":{}}}}}"#, inner)), None);
    assert_eq!(parse_message(inner), None);
}

#[test]
fn volume_beyond_64_bits_is_read() {
    let message = with(r#""v":"12.50000000""#, r#""v":"5000000000000.25""#);
    let tick = parse_message(&message).unwrap();
    assert_eq!(tick.volume, 500_000_000_000_025_000_000);
    let message = with(r#""o":"27123.45000000""#, r#""o":"5000000000000.25""#);
    assert_eq!(parse_message(&message), None);
}

#[test]
fn empty_symbol_is_read_as_it_is() {
    let message = with(r#""k":{"t":1700000040000,"T":1700000099999,"s":"BTCUSDT""#, r#""k":{"t":1700000040000,"T":1700000099999,"s":"""#);
    let tick = parse_message(&message).unwrap();
    assert_eq!(tick.symbol, "");
}

fn integer(name: &str, number: i64) -> (String, Member) {
    (name.to_string(), Member { integer: Some(number), text: None })
}

fn text(name: &str, text: &str) -> (String, Member) {
    (name.to_string(), Member { integer: None, text: Some(text.to_string()) })
}

fn other(name: &str) -> (String, Member) {
    (name.to_string(), Member { integer: None, text: None })
}

fn members() -> Vec<(String, Member)> {
    vec![
        integer("T", 119_999),
        text("c", "2.5"),
        text("h", "3"),
        text("i", "1m"),
        text("l", "1.25"),
        text("o", "2"),
        text("q", "10.5"),
        text("s", "ETHUSDT"),
        integer("t", 60_000),
        text("v", "4.2"),
        other("x"),
    ]
}

#[test]
fn members_become_a_tick() {
    let tick = tick_of_members(&members()).unwrap();
    assert_eq!(
        tick,
        Tick {
            symbol: "ETHUSDT".to_string(),
            open_time_ms: 60_000,
            close_time_ms: 119_999,
            open: 200_000_000,
            price: 250_000_000,
            high: 300_000_000,
            low: 125_000_000,
            volume: 420_000_000,
            quote_volume: 1_050_000_000,
        }
    );
}

#[test]
fn first_member_of_a_name_counts() {
    let mut list = members();
    list.insert(0, integer("t", 1));
    list.push(integer("T", 2));
    let tick = tick_of_members(&list).unwrap();
    assert_eq!((tick.open_time_ms, tick.close_time_ms), (1, 119_999));
    let mut list = members();
    list.insert(0, other("v"));
    assert_eq!(tick_of_members(&list), None);
}

#[test]
fn members_without_quote_volume_give_a_tick_without_it() {
    let list: Vec<(String, Member)> = members().into_iter().filter(|(key, _)| key != "q").collect();
    let tick = tick_of_members(&list).unwrap();
    assert_eq!((tick.volume, tick.quote_volume), (420_000_000, 0));
}

#[test]
fn members_without_one_that_is_needed_give_no_tick() {
    for name in ["t", "T", "s", "i", "o", "c", "h", "l", "v"] {
        let list: Vec<(String, Member)> =
            members().into_iter().filter(|(key, _)| key != name).collect();
        assert_eq!(tick_of_members(&list), None, "{}", name);
    }
    let list: Vec<(String, Member)> = members().into_iter().filter(|(key, _)| key != "x").collect();
    assert!(tick_of_members(&list).is_some());
    assert_eq!(tick_of_members(&Vec::new()), None);
}

#[test]
fn stream_address_of_binance() {
    let symbols = vec!["BTCUSDT".to_string(), "EthUsdt".to_string()];
    assert_eq!(
        build_stream_url("Binance", &symbols, "kline_1m"),
        "wss://stream.binance.com:9443/stream?streams=btcusdt@kline_1m/ethusdt@kline_1m"
    );
    assert_eq!(
        build_stream_url("Binance", &symbols[..1], "kline_1m"),
        "wss://stream.binance.com:9443/stream?streams=btcusdt@kline_1m"
    );
    assert_eq!(
        build_stream_url("Binance", &[], "kline_1m"),
        "wss://stream.binance.com:9443/stream?streams="
    );
}

#[test]
fn stream_address_of_an_unknown_provider_is_empty() {
    let symbols = vec!["BTCUSDT".to_string()];
    assert_eq!(build_stream_url("Kraken", &symbols, "kline_1m"), "");
    assert_eq!(build_stream_url("binance", &symbols, "kline_1m"), "");
}

#[test]
fn stream_address_keeps_symbols_that_are_in_lowercase() {
    let symbols = vec!["a".to_string(), "b".to_string(), "c".to_string()];
    assert_eq!(
        binance_stream_url(&symbols, "t"),
        "wss://stream.binance.com:9443/stream?streams=a@t/b@t/c@t"
    );
    let upper = vec!["A".to_string()];
    assert_eq!(
        binance_stream_url(&upper, "t"),
        "wss://stream.binance.com:9443/stream?streams=A@t"
    );
}
