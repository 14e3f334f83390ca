use arbitrage::binance::ws_model::{
    convert_ticker_string, event_time_from_millis, strip_contract_suffix, BinanceTickerEvent,
    BybitTickerEvent, KucoinTickerData, KucoinTickerMessage, Market, Platform, TickerData,
};

fn bybit_event(symbol: &str, last_price: Option<&str>) -> BybitTickerEvent {
    BybitTickerEvent {
        topic: format!("tickers.{}", symbol),
        message_type: "delta".to_string(),
        data: TickerData {
            symbol: symbol.to_string(),
            tick_direction: Some("PlusTick".to_string()),
            price_24h_pcnt: Some("0.01".to_string()),
            last_price: last_price.map(|p| p.to_string()),
            turnover_24h: None,
            volume_24h: None,
            bid1_price: Some("1".to_string()),
            bid1_size: None,
            ask1_price: Some("2".to_string()),
            ask1_size: None,
        },
        cs: Some(7),
        ts: 1_722_976_560_000,
    }
}

fn kucoin_message(symbol: &str, mark_price: Option<&str>) -> KucoinTickerMessage {
    KucoinTickerMessage {
        topic: "/contract/instrument:ALL".to_string(),
        message_type: "message".to_string(),
        data: KucoinTickerData {
            symbol: symbol.to_string(),
            mark_price: mark_price.map(|p| p.to_string()),
            index_price: Some("65399.5".to_string()),
            granularity: Some(60000),
            funding_rate: Some("-0.000880".to_string()),
            timestamp: 1_722_976_560_000,
        },
        subject: "mark.index.price".to_string(),
    }
}

#[test]
fn platform_names() {
    assert_eq!(Platform::Binance.as_str(), "Binance");
    assert_eq!(Platform::Bybit.as_str(), "Bybit");
    assert_eq!(Platform::Kucoin.as_str(), "Kucoin");
}

#[test]
fn market_names() {
    assert_eq!(Market::Spot.as_str(), "spot");
    assert_eq!(Market::Futures.as_str(), "futures");
}

#[test]
fn topic_gives_joined_pair() {
    assert_eq!(convert_ticker_string(&"/market/ticker:BTC-USDT".to_string()), "BTCUSDT");
    assert_eq!(convert_ticker_string(&"a:ETH-USDT:rest".to_string()), "ETHUSDT");
    assert_eq!(convert_ticker_string(&":X-Y".to_string()), "XY");
}

#[test]
fn topic_takes_only_the_first_two_pieces() {
    assert_eq!(convert_ticker_string(&"t:BTC-USDT-PERP".to_string()), "BTCUSDT");
    assert_eq!(convert_ticker_string(&"t:BTC--USDT".to_string()), "BTC");
    assert_eq!(convert_ticker_string(&"t:-USDT".to_string()), "USDT");
    assert_eq!(convert_ticker_string(&"t:BTC-".to_string()), "BTC");
}

#[test]
fn topic_without_colon_or_hyphen_gives_nothing() {
    assert_eq!(convert_ticker_string(&"BTC-USDT".to_string()), "");
    assert_eq!(convert_ticker_string(&"/market/ticker:BTCUSDT".to_string()), "");
    assert_eq!(convert_ticker_string(&"".to_string()), "");
    assert_eq!(convert_ticker_string(&"t:".to_string()), "");
    assert_eq!(convert_ticker_string(&"t::BTC-USDT".to_string()), "");
}

#[test]
fn topic_with_wide_characters() {
    assert_eq!(convert_ticker_string(&"é:ß-ü".to_string()), "ßü");
}

#[test]
fn suffix_is_stripped_once() {
    assert_eq!(strip_contract_suffix(&"XBTUSDTM".to_string()), "XBTUSDT");
    assert_eq!(strip_contract_suffix(&"IDUSDTM".to_string()), "IDUSDT");
    assert_eq!(strip_contract_suffix(&"M".to_string()), "");
    assert_eq!(strip_contract_suffix(&"".to_string()), "");
    assert_eq!(strip_contract_suffix(&"ABCé".to_string()), "ABC");
}

#[test]
fn bybit_event_becomes_common_ticker() {
    let ticker = BinanceTickerEvent::from_bybit(bybit_event("BTCUSDT", Some("65400.5")), 1234);
    assert_eq!(
        ticker,
        BinanceTickerEvent {
            event_type: String::new(),
            event_time: 1234,
            symbol: "BTCUSDT".to_string(),
            current_close: Some("65400.5".to_string()),
            open: None,
            high: None,
            low: None,
            volume: None,
            quote_volume: None,
        }
    );
}

#[test]
fn bybit_event_without_price_has_no_close() {
    let ticker = BinanceTickerEvent::from_bybit(bybit_event("BTCUSDT", None), 1);
    assert_eq!(ticker.current_close, None);
    assert_eq!(ticker.symbol, "BTCUSDT");
}

#[test]
fn kucoin_message_becomes_common_ticker() {
    let ticker = BinanceTickerEvent::from_kucoin(kucoin_message("XBTUSDTM", Some("65000.1")), 99);
    assert_eq!(
        ticker,
        BinanceTickerEvent {
            event_type: String::new(),
            event_time: 99,
            symbol: "XBTUSDT".to_string(),
            current_close: Some("65000.1".to_string()),
            open: None,
            high: None,
            low: None,
            volume: None,
            quote_volume: None,
        }
    );
}

#[test]
fn kucoin_message_with_empty_symbol_stays_empty() {
    let ticker = BinanceTickerEvent::from_kucoin(kucoin_message("", None), 0);
    assert_eq!(ticker.symbol, "");
    assert_eq!(ticker.current_close, None);
}

#[test]
fn conversions_stamp_the_clock() {
    let before = event_time_from_millis(1_600_000_000_000);
    let from_bybit: BinanceTickerEvent = Box::new(bybit_event("BTCUSDT", Some("1"))).into();
    let from_kucoin: BinanceTickerEvent = Box::new(kucoin_message("XBTUSDTM", Some("2"))).into();
    assert!(from_bybit.event_time > before);
    assert!(from_kucoin.event_time > before);
    assert_eq!(from_bybit.symbol, "BTCUSDT");
    assert_eq!(from_bybit.current_close, Some("1".to_string()));
    assert_eq!(from_kucoin.symbol, "XBTUSDT");
    assert_eq!(from_kucoin.current_close, Some("2".to_string()));
}

#[test]
fn event_time_reinterprets_the_reading() {
    assert_eq!(event_time_from_millis(0), 0);
    assert_eq!(event_time_from_millis(1_722_976_560_000), 1_722_976_560_000);
    assert_eq!(event_time_from_millis(-1), u64::MAX);
}

#[test]
fn duplicate_is_equal() {
    let ticker = BinanceTickerEvent::from_bybit(bybit_event("ETHUSDT", Some("3000")), 5);
    assert_eq!(ticker.duplicate(), ticker);
}
