use arbitrage::binance::ws_model::{
    BinanceTickerEvent, BybitTickerEvent, Market, Platform, TickerData, WebSocketEvent,
};
use arbitrage::decimal::Amount;
use arbitrage::model::arb_coin_price::{ArbCoinPrice, Slot};
use arbitrage::model::arb_diff_signal::ArbDiffSignal;
use arbitrage::service::diff_price::{
    compute_divergence, default_threshold, diff_slots, evaluate_pair, judge_pair, scan,
    scan_record,
};
use arbitrage::service::{get_diff_signal, normalize};
use arbitrage::service::price_cache::PriceCache;
use arbitrage::service::signal_store::{plan_signal_write, run_cycle, SignalStore, SignalWrite};

fn num(text: &str) -> Amount {
    Amount::parse(text).unwrap()
}

fn s(text: &str) -> String {
    text.to_string()
}

fn futures_record(symbol: &str, binance: &str, bybit: &str, kucoin: &str) -> ArbCoinPrice {
    ArbCoinPrice {
        id: 0,
        platform: s("Binance"),
        symbol: s(symbol),
        binance_spot_price: Amount::zero(),
        binance_futures_price: num(binance),
        bybit_futures_price: num(bybit),
        kucoin_futures_price: num(kucoin),
        created: s("t0"),
        updated: s("t0"),
        bak: None,
    }
}

#[test]
fn default_threshold_is_one_half() {
    let threshold = default_threshold();
    assert_eq!(threshold.mantissa(), 5);
    assert_eq!(threshold.scale(), 1);
}

#[test]
fn compared_slots_are_the_futures_markets() {
    assert_eq!(diff_slots(), vec![Slot::BinanceFutures, Slot::BybitFutures, Slot::KucoinFutures]);
}

#[test]
fn divergence_of_a_rising_pair() {
    let (diff, rate) = compute_divergence(&num("65000"), &num("65400")).unwrap();
    assert_eq!(diff.mantissa(), 400);
    assert_eq!(diff.scale(), 0);
    // 400 / 65400 * 100 = 0.61162079510703363914373088685...
    assert_eq!(rate.mantissa(), 6_116_207_951_070_336_391_437_308_900);
    assert_eq!(rate.scale(), 28);
    assert!(rate.exceeds(&num("0.6116")));
    assert!(!rate.exceeds(&num("0.6117")));
}

#[test]
fn divergence_of_a_small_rise() {
    let (diff, rate) = compute_divergence(&num("65000"), &num("65200")).unwrap();
    assert_eq!(diff.mantissa(), 200);
    // 200 / 65200 * 100 = 0.30674846625766871165644171779...
    assert_eq!(rate.mantissa(), 3_067_484_662_576_687_116_564_417_200);
    assert_eq!(rate.scale(), 28);
    assert!(rate.exceeds(&num("0.3067")));
    assert!(!rate.exceeds(&num("0.3068")));
}

#[test]
fn divergence_divides_by_the_later_price() {
    // from 100 to 80: diff -20, rate -20 / 80 * 100 = -25, not -20.
    let (diff, rate) = compute_divergence(&num("100"), &num("80")).unwrap();
    assert_eq!(diff.mantissa(), -20);
    assert!(rate.exceeds(&num("-25.0001")));
    assert!(!rate.exceeds(&num("-25")));
    assert!(num("-24.9999").exceeds(&rate));
}

#[test]
fn divergence_keeps_every_digit() {
    let (diff, _) = compute_divergence(&num("65000"), &num("65000.123456789")).unwrap();
    assert_eq!(diff.mantissa(), 123_456_789);
    assert_eq!(diff.scale(), 9);
}

#[test]
fn divergence_of_an_exact_rate() {
    // from 99.5 to 100: diff 0.5, rate exactly 0.5.
    let (diff, rate) = compute_divergence(&num("99.5"), &num("100")).unwrap();
    assert_eq!(diff.mantissa(), 5);
    assert_eq!(diff.scale(), 1);
    assert!(!rate.exceeds(&num("0.5")));
    assert!(!num("0.5").exceeds(&rate));
}

#[test]
fn divergence_without_result() {
    assert_eq!(compute_divergence(&num("1"), &Amount::zero()), None);
    let largest = Amount::new(arbitrage::decimal::MAX_MANTISSA, 0).unwrap();
    let smallest = Amount::new(-arbitrage::decimal::MAX_MANTISSA, 0).unwrap();
    assert_eq!(compute_divergence(&smallest, &largest), None);
}

#[test]
fn judge_builds_the_signal_above_threshold() {
    let record = futures_record("BTCUSDT", "65000", "65400", "0");
    let signal = judge_pair(
        &record,
        Slot::BinanceFutures,
        Slot::BybitFutures,
        Some((num("400"), num("0.6116"))),
        &num("0.5"),
        &s("t1"),
    );
    assert_eq!(
        signal,
        Some(ArbDiffSignal {
            id: 0,
            symbol: s("BTCUSDT"),
            from_compare: s("binance_futures_price"),
            to_compare: s("bybit_futures_price"),
            price_diff: num("400"),
            price_diff_rate: num("0.6116"),
            binance_futures_price: num("65000"),
            bybit_futures_price: num("65400"),
            kucoin_futures_price: num("0"),
            created: s("t1"),
            updated: s("t1"),
        })
    );
}

#[test]
fn judge_gives_nothing_at_or_below_threshold() {
    let record = futures_record("BTCUSDT", "65000", "65200", "0");
    let from = Slot::BinanceFutures;
    let to = Slot::BybitFutures;
    let now = s("t1");
    assert_eq!(
        judge_pair(&record, from, to, Some((num("200"), num("0.3067"))), &num("0.5"), &now),
        None
    );
    assert_eq!(judge_pair(&record, from, to, Some((num("1"), num("0.5"))), &num("0.5"), &now), None);
    assert_eq!(judge_pair(&record, from, to, Some((num("1"), num("0.50"))), &num("0.5"), &now), None);
    assert_eq!(judge_pair(&record, from, to, Some((num("-9"), num("-9"))), &num("0.5"), &now), None);
    assert_eq!(judge_pair(&record, from, to, None, &num("0.5"), &now), None);
}

#[test]
fn threshold_boundary() {
    let above = futures_record("BTCUSDT", "65000", "65400", "0");
    let signal = evaluate_pair(
        &above,
        Slot::BinanceFutures,
        Slot::BybitFutures,
        &default_threshold(),
        &s("t1"),
    )
    .unwrap();
    assert_eq!(signal.price_diff, num("400"));
    assert!(signal.price_diff_rate.exceeds(&num("0.6116")));
    assert!(!signal.price_diff_rate.exceeds(&num("0.6117")));

    let below = futures_record("BTCUSDT", "65000", "65200", "0");
    assert_eq!(
        evaluate_pair(&below, Slot::BinanceFutures, Slot::BybitFutures, &default_threshold(), &s("t1")),
        None
    );
}

#[test]
fn pair_with_unknown_slot_gives_no_signal() {
    let threshold = default_threshold();
    let now = s("t1");
    let from_unknown = futures_record("BTCUSDT", "0", "65400", "0");
    assert_eq!(
        evaluate_pair(&from_unknown, Slot::BinanceFutures, Slot::BybitFutures, &threshold, &now),
        None
    );
    let to_unknown = futures_record("BTCUSDT", "65000", "0.000", "0");
    assert_eq!(
        evaluate_pair(&to_unknown, Slot::BinanceFutures, Slot::BybitFutures, &threshold, &now),
        None
    );
    let both_unknown = futures_record("BTCUSDT", "0", "0", "0");
    assert_eq!(
        evaluate_pair(&both_unknown, Slot::BinanceFutures, Slot::BybitFutures, &threshold, &now),
        None
    );
    // Against a threshold below every rate, too.
    assert_eq!(
        evaluate_pair(&from_unknown, Slot::BinanceFutures, Slot::BybitFutures, &num("-1000"), &now),
        None
    );
}

#[test]
fn pair_with_slot_without_field_gives_no_signal() {
    let record = futures_record("BTCUSDT", "65000", "65400", "66000");
    assert_eq!(
        evaluate_pair(&record, Slot::BybitSpot, Slot::BybitFutures, &default_threshold(), &s("t")),
        None
    );
    assert_eq!(
        evaluate_pair(&record, Slot::BinanceFutures, Slot::KucoinSpot, &default_threshold(), &s("t")),
        None
    );
}

#[test]
fn falling_pair_gives_no_signal() {
    let record = futures_record("BTCUSDT", "65400", "65000", "0");
    assert_eq!(
        evaluate_pair(&record, Slot::BinanceFutures, Slot::BybitFutures, &default_threshold(), &s("t")),
        None
    );
}

#[test]
fn record_scan_takes_each_pair_once_in_order() {
    let record = futures_record("BTCUSDT", "100", "101", "103");
    let signals = scan_record(&record, &diff_slots(), &default_threshold(), &s("t1"));
    let keys: Vec<(String, String)> =
        signals.iter().map(|x| (x.from_compare.clone(), x.to_compare.clone())).collect();
    assert_eq!(
        keys,
        vec![
            (s("binance_futures_price"), s("bybit_futures_price")),
            (s("binance_futures_price"), s("kucoin_futures_price")),
            (s("bybit_futures_price"), s("kucoin_futures_price")),
        ]
    );
    assert_eq!(signals[0].price_diff, num("1"));
    assert_eq!(signals[1].price_diff, num("3"));
    assert_eq!(signals[2].price_diff, num("2"));
    for signal in &signals {
        assert_eq!(signal.symbol, "BTCUSDT");
        assert_eq!(signal.binance_futures_price, num("100"));
        assert_eq!(signal.bybit_futures_price, num("101"));
        assert_eq!(signal.kucoin_futures_price, num("103"));
        assert_eq!(signal.created, "t1");
        assert_eq!(signal.updated, "t1");
        assert_eq!(signal.id, 0);
    }
}

#[test]
fn record_scan_skips_unknown_and_quiet_pairs() {
    let record = futures_record("BTCUSDT", "100", "0", "103");
    let signals = scan_record(&record, &diff_slots(), &default_threshold(), &s("t1"));
    assert_eq!(signals.len(), 1);
    assert_eq!(signals[0].from_compare, "binance_futures_price");
    assert_eq!(signals[0].to_compare, "kucoin_futures_price");

    let quiet = futures_record("BTCUSDT", "100", "100.1", "100.2");
    assert!(scan_record(&quiet, &diff_slots(), &default_threshold(), &s("t1")).is_empty());
}

#[test]
fn record_scan_with_fewer_than_two_slots_finds_nothing() {
    let record = futures_record("BTCUSDT", "100", "101", "103");
    assert!(scan_record(&record, &vec![], &default_threshold(), &s("t")).is_empty());
    assert!(scan_record(&record, &vec![Slot::BinanceFutures], &default_threshold(), &s("t"))
        .is_empty());
}

#[test]
fn record_scan_follows_the_given_order_of_slots() {
    let record = futures_record("BTCUSDT", "100", "101", "0");
    let reversed = vec![Slot::BybitFutures, Slot::BinanceFutures];
    // from 101 to 100 falls: no signal in this direction.
    assert!(scan_record(&record, &reversed, &default_threshold(), &s("t")).is_empty());
    let forward = vec![Slot::BinanceFutures, Slot::BybitFutures];
    assert_eq!(scan_record(&record, &forward, &default_threshold(), &s("t")).len(), 1);
}

#[test]
fn snapshot_scan_goes_record_by_record() {
    let records = vec![
        futures_record("BTCUSDT", "65000", "65400", "0"),
        futures_record("ETHUSDT", "3000", "3000", "3000"),
        futures_record("SOLUSDT", "0", "150", "152"),
    ];
    let signals = scan(&records, &diff_slots(), &default_threshold(), &s("t1"));
    let found: Vec<(String, String, String)> = signals
        .iter()
        .map(|x| (x.symbol.clone(), x.from_compare.clone(), x.to_compare.clone()))
        .collect();
    assert_eq!(
        found,
        vec![
            (s("BTCUSDT"), s("binance_futures_price"), s("bybit_futures_price")),
            (s("SOLUSDT"), s("bybit_futures_price"), s("kucoin_futures_price")),
        ]
    );
    assert!(scan(&vec![], &diff_slots(), &default_threshold(), &s("t1")).is_empty());
}

#[test]
fn plan_inserts_a_new_signal() {
    let record = futures_record("BTCUSDT", "65000", "65400", "0");
    let computed =
        evaluate_pair(&record, Slot::BinanceFutures, Slot::BybitFutures, &default_threshold(), &s("t1"))
            .unwrap();
    assert_eq!(plan_signal_write(None, computed.clone()), SignalWrite::Insert(computed));
}

#[test]
fn plan_updates_the_stored_signal_under_its_id() {
    let stored = ArbDiffSignal {
        id: 41,
        symbol: s("BTCUSDT"),
        from_compare: s("binance_futures_price"),
        to_compare: s("bybit_futures_price"),
        price_diff: num("400"),
        price_diff_rate: num("0.61"),
        binance_futures_price: num("65000"),
        bybit_futures_price: num("65400"),
        kucoin_futures_price: num("0"),
        created: s("t1"),
        updated: s("t1"),
    };
    let computed = ArbDiffSignal {
        id: 0,
        symbol: s("BTCUSDT"),
        from_compare: s("binance_futures_price"),
        to_compare: s("bybit_futures_price"),
        price_diff: num("500"),
        price_diff_rate: num("0.76"),
        binance_futures_price: num("65000"),
        bybit_futures_price: num("65500"),
        kucoin_futures_price: num("65100"),
        created: s("t2"),
        updated: s("t2"),
    };
    assert_eq!(
        plan_signal_write(Some(stored), computed),
        SignalWrite::Update(ArbDiffSignal {
            id: 41,
            symbol: s("BTCUSDT"),
            from_compare: s("binance_futures_price"),
            to_compare: s("bybit_futures_price"),
            price_diff: num("500"),
            price_diff_rate: num("0.76"),
            binance_futures_price: num("65000"),
            bybit_futures_price: num("65500"),
            kucoin_futures_price: num("65100"),
            created: s("t1"),
            updated: s("t2"),
        })
    );
}

#[test]
fn store_gives_new_identities_new_ids() {
    let mut store = SignalStore::new();
    let record = futures_record("BTCUSDT", "100", "101", "103");
    let signals = scan_record(&record, &diff_slots(), &default_threshold(), &s("t1"));
    assert_eq!(store.upsert(signals[0].clone()), Some(1));
    assert_eq!(store.upsert(signals[1].clone()), Some(2));
    assert_eq!(store.upsert(signals[2].clone()), Some(3));
    assert_eq!(store.len(), 3);
    let rows = store.rows();
    assert_eq!(rows[1].id, 2);
    assert_eq!(rows[1].to_compare, "kucoin_futures_price");
    assert_eq!(store.get(&signals[2]).unwrap().id, 3);
}

#[test]
fn recomputation_updates_the_same_row() {
    let mut store = SignalStore::new();
    let record = futures_record("BTCUSDT", "65000", "65400", "0");
    let first =
        evaluate_pair(&record, Slot::BinanceFutures, Slot::BybitFutures, &default_threshold(), &s("t1"))
            .unwrap();
    let again =
        evaluate_pair(&record, Slot::BinanceFutures, Slot::BybitFutures, &default_threshold(), &s("t2"))
            .unwrap();
    let id = store.upsert(first.clone());
    assert_eq!(id, Some(1));
    assert_eq!(store.upsert(again), id);
    assert_eq!(store.len(), 1);
    let row = store.get(&first).unwrap();
    assert_eq!(row.id, 1);
    assert_eq!(row.created, "t1");
    assert_eq!(row.updated, "t2");
    assert_eq!(row.price_diff, num("400"));
    assert_eq!(row.price_diff_rate, first.price_diff_rate);
}

#[test]
fn recomputation_with_new_prices_overwrites_the_values() {
    let mut store = SignalStore::new();
    let before = futures_record("BTCUSDT", "65000", "65400", "0");
    let after = futures_record("BTCUSDT", "65000", "65500", "65100");
    let threshold = default_threshold();
    let first =
        evaluate_pair(&before, Slot::BinanceFutures, Slot::BybitFutures, &threshold, &s("t1")).unwrap();
    let second =
        evaluate_pair(&after, Slot::BinanceFutures, Slot::BybitFutures, &threshold, &s("t2")).unwrap();
    store.upsert(first);
    assert_eq!(store.upsert(second.clone()), Some(1));
    let rows = store.rows();
    assert_eq!(rows.len(), 1);
    assert_eq!(rows[0].price_diff, num("500"));
    assert_eq!(rows[0].price_diff_rate, second.price_diff_rate);
    assert_eq!(rows[0].bybit_futures_price, num("65500"));
    assert_eq!(rows[0].kucoin_futures_price, num("65100"));
    assert_eq!(rows[0].created, "t1");
    assert_eq!(rows[0].updated, "t2");
}

#[test]
fn stale_signal_stays_when_divergence_subsides() {
    let mut store = SignalStore::new();
    let wide = vec![futures_record("BTCUSDT", "65000", "65400", "0")];
    let narrow = vec![futures_record("BTCUSDT", "65000", "65010", "0")];
    run_cycle(&wide, &mut store, &default_threshold(), &s("t1"));
    let stored = store.rows();
    run_cycle(&narrow, &mut store, &default_threshold(), &s("t2"));
    assert_eq!(store.rows(), stored);
}

#[test]
fn store_reports_absent_identity() {
    let store = SignalStore::new();
    let record = futures_record("BTCUSDT", "65000", "65400", "0");
    let signal =
        evaluate_pair(&record, Slot::BinanceFutures, Slot::BybitFutures, &default_threshold(), &s("t1"))
            .unwrap();
    assert_eq!(store.get(&signal), None);
    assert_eq!(store.len(), 0);
}

#[test]
fn end_to_end_two_feeds_one_cycle() {
    let feed_a = WebSocketEvent::MiniTicker(Box::new(vec![BinanceTickerEvent {
        event_type: s("24hrMiniTicker"),
        event_time: 1,
        symbol: s("BTCUSDT"),
        current_close: Some(s("65000")),
        open: None,
        high: None,
        low: None,
        volume: None,
        quote_volume: None,
    }]));
    let feed_b = WebSocketEvent::TickerDelta(Box::new(BybitTickerEvent {
        topic: s("tickers.BTCUSDT"),
        message_type: s("delta"),
        data: TickerData {
            symbol: s("BTCUSDT"),
            tick_direction: None,
            price_24h_pcnt: None,
            last_price: Some(s("65400")),
            turnover_24h: None,
            volume_24h: None,
            bid1_price: None,
            bid1_size: None,
            ask1_price: None,
            ask1_size: None,
        },
        cs: None,
        ts: 2,
    }));

    let mut cache = PriceCache::new();
    let mut ticks = normalize(Platform::Binance, Market::Futures, feed_a, 10);
    ticks.extend(normalize(Platform::Bybit, Market::Futures, feed_b, 11));
    let outcomes = cache.apply_ticks(&ticks, &s("t1"));
    assert!(outcomes.iter().all(|o| o.is_ok()));

    let mut store = SignalStore::new();
    run_cycle(&cache.snapshot(), &mut store, &default_threshold(), &s("t2"));

    let rows = store.rows();
    assert_eq!(rows.len(), 1);
    let signal = &rows[0];
    assert_eq!(signal.id, 1);
    assert_eq!(signal.symbol, "BTCUSDT");
    assert_eq!(signal.from_compare, "binance_futures_price");
    assert_eq!(signal.to_compare, "bybit_futures_price");
    assert_eq!(signal.price_diff, num("400"));
    assert!(signal.price_diff_rate.exceeds(&num("0.61")));
    assert!(!signal.price_diff_rate.exceeds(&num("0.62")));
    assert_eq!(signal.binance_futures_price, num("65000"));
    assert_eq!(signal.bybit_futures_price, num("65400"));
    assert_eq!(signal.kucoin_futures_price, Amount::zero());
    assert_eq!(signal.created, "t2");
    assert_eq!(signal.updated, "t2");

    // A second cycle on unchanged prices updates the row in place.
    run_cycle(&cache.snapshot(), &mut store, &default_threshold(), &s("t3"));
    let rows = store.rows();
    assert_eq!(rows.len(), 1);
    assert_eq!(rows[0].id, 1);
    assert_eq!(rows[0].created, "t2");
    assert_eq!(rows[0].updated, "t3");
}

#[test]
fn diff_signals_of_a_snapshot() {
    let snapshot = vec![
        futures_record("BTCUSDT", "65000", "65400", "0"),
        futures_record("ETHUSDT", "3000", "3001", "2999"),
    ];
    let signals = get_diff_signal(&snapshot, &default_threshold(), &s("t1"));
    assert_eq!(signals, scan(&snapshot, &diff_slots(), &default_threshold(), &s("t1")));
    assert_eq!(signals.len(), 1);
    assert_eq!(signals[0].symbol, "BTCUSDT");
    assert_eq!(signals[0].price_diff, num("400"));

    // A lower threshold lets the smaller divergences through.
    let all = get_diff_signal(&snapshot, &num("0.01"), &s("t1"));
    let found: Vec<(String, String, String)> = all
        .iter()
        .map(|x| (x.symbol.clone(), x.from_compare.clone(), x.to_compare.clone()))
        .collect();
    assert_eq!(
        found,
        vec![
            (s("BTCUSDT"), s("binance_futures_price"), s("bybit_futures_price")),
            (s("ETHUSDT"), s("binance_futures_price"), s("bybit_futures_price")),
        ]
    );
}

#[test]
fn spot_price_takes_no_part_in_the_scan() {
    let mut record = futures_record("BTCUSDT", "65000", "0", "0");
    record.binance_spot_price = num("70000");
    assert!(scan_record(&record, &diff_slots(), &default_threshold(), &s("t")).is_empty());
}
