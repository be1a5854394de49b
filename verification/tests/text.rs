use cex_core::quot::{
    binance_kline_action, binance_stream_name, binance_subscribe_params, is_subscription_ack,
    okx_base_code, okx_candle_times, okx_candle_times_from, okx_inst_id, okx_subscribe_inst_ids,
    parse_interval, KlineAction,
};
use cex_core::text::{chars_of, find_first, str_contains, str_eq, str_parse_i64};
use cex_core::v1::{coin_type_name, exchange_name};
use cex_core::{read_fixed, write_fixed, COIN_TYPE_SPOT, EXCHID_BINANCE, EXCHID_OKX};

#[test]
fn write_fixed_pads_with_zeros() {
    let mut code = [0xffu8; 16];
    write_fixed(&mut code, "BTCUSDT");
    assert_eq!(&code[..7], b"BTCUSDT");
    assert!(code[7..].iter().all(|&b| b == 0));
}

#[test]
fn write_fixed_truncates() {
    let mut code = [0u8; 4];
    write_fixed(&mut code, "ABCDEFG");
    assert_eq!(&code, b"ABCD");
}

#[test]
fn fixed_round_trip() {
    let mut code = [0u8; 16];
    write_fixed(&mut code, "ETH");
    assert_eq!(read_fixed(&code), "ETH");
    write_fixed(&mut code, "价格");
    assert_eq!(read_fixed(&code), "价格");
}

#[test]
fn read_fixed_without_terminator() {
    assert_eq!(read_fixed(b"ABCD"), "ABCD");
    assert_eq!(read_fixed(b""), "");
    assert_eq!(read_fixed(b"\0ABC"), "");
}

#[test]
fn read_fixed_replaces_invalid_bytes() {
    assert_eq!(read_fixed(&[b'A', 0xff, b'B', 0]), "A\u{FFFD}B");
}

#[test]
fn intervals() {
    let table = [
        ("1s", 1), ("1m", 60), ("3m", 180), ("5m", 300), ("15m", 900), ("30m", 1800),
        ("1h", 3600), ("2h", 7200), ("4h", 14400), ("6h", 21600), ("8h", 28800),
        ("12h", 43200), ("1d", 86400), ("3d", 259200), ("1w", 604800), ("1M", 2592000),
    ];
    for (code, secs) in table {
        assert_eq!(parse_interval(code), secs);
    }
    assert_eq!(parse_interval("2m"), 0);
    assert_eq!(parse_interval(""), 0);
    assert_eq!(parse_interval("1S"), 0);
}

#[test]
fn kline_actions() {
    assert_eq!(binance_kline_action(false, "1s"), KlineAction::Skip);
    assert_eq!(binance_kline_action(true, "7x"), KlineAction::UnknownInterval);
    assert_eq!(binance_kline_action(true, "1m"), KlineAction::Publish { interval: 60 });
}

#[test]
fn subscription_ack() {
    assert!(is_subscription_ack("{\"result\":null,\"id\":1}"));
    assert!(!is_subscription_ack("{\"result\":[],\"id\":1}"));
}

#[test]
fn binance_streams() {
    assert_eq!(binance_stream_name("btcusdt"), "btcusdt@kline_1s");
    assert_eq!(binance_stream_name("BTCUSDT"), "BTCUSDT@kline_1s");
    assert_eq!(binance_stream_name("eth"), "ethusdt@kline_1s");
    let params = binance_subscribe_params(&vec!["btcusdt".to_string(), "eth".to_string()]);
    assert_eq!(params, vec!["btcusdt@kline_1s".to_string(), "ethusdt@kline_1s".to_string()]);
}

#[test]
fn okx_instruments() {
    assert_eq!(okx_inst_id("btc"), "BTC-USDT");
    assert_eq!(okx_inst_id("ethusdt"), "ETHUSDT");
    let ids = okx_subscribe_inst_ids(&vec!["btc".to_string(), "eth".to_string()]);
    assert_eq!(ids, vec!["BTC-USDT".to_string(), "ETH-USDT".to_string()]);
}

#[test]
fn okx_base_codes() {
    assert_eq!(okx_base_code("BTC-USDT"), "BTC");
    assert_eq!(okx_base_code("BTC"), "BTC");
    assert_eq!(okx_base_code("A-USDT-USDT"), "A");
    assert_eq!(okx_base_code("-USDT"), "");
}

#[test]
fn okx_candle_fields() {
    assert_eq!(okx_candle_times("1762233412000", "1"), (1762233412000, 1));
    assert_eq!(okx_candle_times("x", ""), (0, 0));
    assert_eq!(okx_candle_times("-1", "+5"), (u64::MAX, 5));
    assert_eq!(okx_candle_times_from(Some(7), None), (7, 0));
}

#[test]
fn text_equality() {
    assert!(str_eq("abc", "abc"));
    assert!(!str_eq("abc", "abd"));
    assert!(!str_eq("abc", "ab"));
    assert!(str_eq("", ""));
}

#[test]
fn display_names() {
    assert_eq!(exchange_name(EXCHID_BINANCE), "Binance");
    assert_eq!(exchange_name(EXCHID_OKX), "OKX");
    assert_eq!(exchange_name(1), "Unknown");
    assert_eq!(coin_type_name(COIN_TYPE_SPOT), "Spot");
    assert_eq!(coin_type_name(301), "Margin");
    assert_eq!(coin_type_name(400), "Swap");
    assert_eq!(coin_type_name(401), "Futures");
    assert_eq!(coin_type_name(402), "Option");
    assert_eq!(coin_type_name(0), "Unknown");
}

#[test]
fn text_search() {
    assert_eq!(chars_of("a价b"), vec!['a', '价', 'b']);
    let t = chars_of("xx-USDT-USDT");
    assert_eq!(find_first(&t, &chars_of("-USDT")), Some(2));
    assert_eq!(find_first(&t, &chars_of("USDC")), None);
    assert_eq!(find_first(&t, &chars_of("")), Some(0));
    assert_eq!(find_first(&chars_of("ab"), &chars_of("abc")), None);
    assert!(str_contains("价格USDT", "USDT"));
    assert!(!str_contains("usd", "usdt"));
    assert!(str_contains("", ""));
}

#[test]
fn integer_parsing() {
    assert_eq!(str_parse_i64("0"), Some(0));
    assert_eq!(str_parse_i64("+42"), Some(42));
    assert_eq!(str_parse_i64("-42"), Some(-42));
    assert_eq!(str_parse_i64("9223372036854775807"), Some(i64::MAX));
    assert_eq!(str_parse_i64("-9223372036854775808"), Some(i64::MIN));
    assert_eq!(str_parse_i64("9223372036854775808"), None);
    assert_eq!(str_parse_i64("-9223372036854775809"), None);
    assert_eq!(str_parse_i64("99999999999999999999x"), None);
    assert_eq!(str_parse_i64(""), None);
    assert_eq!(str_parse_i64("-"), None);
    assert_eq!(str_parse_i64(" 1"), None);
    assert_eq!(str_parse_i64("1٣"), None);
    for text in ["17", "-3", "+0", "007", "1e3", "--1"] {
        assert_eq!(str_parse_i64(text), text.parse::<i64>().ok());
    }
}
