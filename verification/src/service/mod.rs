//! The pipeline: feed events are brought into one ticker shape, normalised
//! into ticks with exact prices, written into the price cache and scanned
//! for divergence.

pub mod diff_price;
pub mod price_cache;
pub mod signal_store;

pub use diff_price::get_diff_signal;
pub use diff_price::set_price_data;

use crate::binance::ws_model::{
    event_time_from_millis, event_time_of, BinanceTickerEvent, Market, Platform, Ticker,
    WebSocketEvent,
};
use crate::clock::local_now_millis;
use crate::decimal::{named, decimal_parse, optional_fixed, Amount, Fixed};
use vstd::prelude::*;

verus! {

/// The tickers of one feed event, with the feed they came from and the local
/// time, in milliseconds since the Unix epoch, at which they arrived.
#[derive(Debug, Clone, PartialEq, Eq)]
pub struct PriceStream {
    pub tickers: Vec<BinanceTickerEvent>,
    pub market: Market,
    pub platform: Platform,
    pub local_time: i64,
}

/// The mathematical content of a sequence of tickers.
pub open spec fn ticker_views(tickers: Seq<BinanceTickerEvent>) -> Seq<Ticker> {
    Seq::new(tickers.len(), |i: int| tickers[i]@)
}

/// The tickers that an event of a platform's feed carries. Each platform has
/// one event shape of its own; any other shape carries none. Events of Bybit
/// and KuCoin hold one ticker, stamped with `event_time`.
pub open spec fn event_tickers(platform: Platform, event: WebSocketEvent, event_time: u64) -> Seq<
    Ticker,
> {
    match (platform, event) {
        (Platform::Binance, WebSocketEvent::MiniTicker(tickers)) => ticker_views(tickers@),
        (Platform::Bybit, WebSocketEvent::TickerDelta(delta)) => seq![
            BinanceTickerEvent::of_bybit(*delta, event_time),
        ],
        (Platform::Kucoin, WebSocketEvent::KucoinTicker(message)) => seq![
            BinanceTickerEvent::of_kucoin(*message, event_time),
        ],
        _ => Seq::empty(),
    }
}

/// Turns an event that a platform's feed delivered at `now_millis` into the
/// stream of its tickers. The shape is chosen by the platform alone: an event
/// of another platform's shape gives an empty stream.
pub fn price_stream_at(
    platform: Platform,
    market: Market,
    event: WebSocketEvent,
    now_millis: i64,
) -> (stream: PriceStream)
    ensures
        stream.platform == platform,
        stream.market == market,
        stream.local_time == now_millis,
        ticker_views(stream.tickers@) == event_tickers(platform, event, event_time_of(now_millis)),
{
    let event_time = event_time_from_millis(now_millis);
    let mut tickers: Vec<BinanceTickerEvent> = Vec::new();
    match platform {
        Platform::Binance => {
            if let WebSocketEvent::MiniTicker(list) = event {
                tickers = *list;
            }
        },
        Platform::Bybit => {
            if let WebSocketEvent::TickerDelta(delta) = event {
                tickers.push(BinanceTickerEvent::from_bybit(*delta, event_time));
            }
        },
        Platform::Kucoin => {
            if let WebSocketEvent::KucoinTicker(message) = event {
                tickers.push(BinanceTickerEvent::from_kucoin(*message, event_time));
            }
        },
    }
    assert(ticker_views(tickers@) =~= event_tickers(platform, event, event_time));
    PriceStream { tickers, market, platform, local_time: now_millis }
}

/// Turns an event that a platform's feed has just delivered into the stream
/// of its tickers, stamped with the local clock. Two calls may differ in the
/// time they read; everything else is fixed by the arguments.
pub fn price_stream(platform: Platform, market: Market, event: WebSocketEvent) -> (stream:
    PriceStream)
    ensures
        stream.platform == platform,
        stream.market == market,
        ticker_views(stream.tickers@) == event_tickers(
            platform,
            event,
            event_time_of(stream.local_time),
        ),
{
    price_stream_at(platform, market, event, local_now_millis())
}

/// A price observation in canonical form: which slot, which symbol, the
/// exact price and when it was seen.
#[derive(Debug, Clone, PartialEq, Eq)]
pub struct NormalizedTick {
    pub platform: Platform,
    pub market: Market,
    pub symbol: String,
    pub price: Amount,
    pub observed_at_millis: i64,
}

/// The mathematical content of a [`NormalizedTick`].
pub struct Tick {
    pub platform: Platform,
    pub market: Market,
    pub symbol: Seq<char>,
    pub price: Fixed,
    pub observed_at_millis: i64,
}

impl View for NormalizedTick {
    type V = Tick;

    open spec fn view(&self) -> Tick {
        Tick {
            platform: self.platform,
            market: self.market,
            symbol: self.symbol@,
            price: self.price@,
            observed_at_millis: self.observed_at_millis,
        }
    }
}

/// The view of an optional tick.
pub open spec fn optional_tick(tick: Option<NormalizedTick>) -> Option<Tick> {
    match tick {
        Some(t) => Some(t@),
        None => None,
    }
}

/// The mathematical content of a sequence of ticks.
pub open spec fn tick_views(ticks: Seq<NormalizedTick>) -> Seq<Tick> {
    Seq::new(ticks.len(), |i: int| ticks[i]@)
}

/// The tick for a symbol and the outcome of reading its price: none where
/// the symbol is missing or the price did not parse.
pub open spec fn assembled(
    platform: Platform,
    market: Market,
    symbol: Seq<char>,
    price: Option<Fixed>,
    observed_at_millis: i64,
) -> Option<Tick> {
    match price {
        Some(p) if symbol.len() > 0 => Some(
            Tick { platform, market, symbol, price: p, observed_at_millis },
        ),
        _ => None,
    }
}

/// The tick that a ticker normalises to: none where the ticker has no price,
/// where the price text is not a decimal number, or where the symbol is
/// missing.
pub open spec fn tick_of(
    platform: Platform,
    market: Market,
    ticker: Ticker,
    observed_at_millis: i64,
) -> Option<Tick> {
    match ticker.current_close {
        Some(text) => assembled(
            platform,
            market,
            ticker.symbol,
            named(decimal_parse(text)),
            observed_at_millis,
        ),
        None => None,
    }
}

/// The ticks that a sequence of tickers normalises to, in order; tickers
/// without a tick are left out one by one.
pub open spec fn ticks_of(
    platform: Platform,
    market: Market,
    tickers: Seq<Ticker>,
    observed_at_millis: i64,
) -> Seq<Tick>
    decreases tickers.len(),
{
    if tickers.len() == 0 {
        Seq::empty()
    } else {
        let earlier = ticks_of(platform, market, tickers.drop_last(), observed_at_millis);
        match tick_of(platform, market, tickers.last(), observed_at_millis) {
            Some(tick) => earlier.push(tick),
            None => earlier,
        }
    }
}

/// Builds the tick for a symbol from the outcome of parsing its price.
pub fn tick_from_parsed(
    platform: Platform,
    market: Market,
    symbol: &String,
    parsed: Option<Amount>,
    observed_at_millis: i64,
) -> (tick: Option<NormalizedTick>)
    ensures
        optional_tick(tick) == assembled(
            platform,
            market,
            symbol@,
            optional_fixed(parsed),
            observed_at_millis,
        ),
{
    match parsed {
        Some(price) => {
            if symbol.as_str().unicode_len() > 0 {
                Some(
                    NormalizedTick {
                        platform,
                        market,
                        symbol: symbol.clone(),
                        price,
                        observed_at_millis,
                    },
                )
            } else {
                None
            }
        },
        None => None,
    }
}

/// Normalises one ticker: parses the closing price as an exact decimal and
/// pairs it with the symbol. A ticker without a price, with a price that is
/// not a number, or without a symbol gives no tick.
pub fn normalize_ticker(
    platform: Platform,
    market: Market,
    ticker: &BinanceTickerEvent,
    observed_at_millis: i64,
) -> (tick: Option<NormalizedTick>)
    ensures
        optional_tick(tick) == tick_of(platform, market, ticker@, observed_at_millis),
{
    match &ticker.current_close {
        Some(text) => {
            let parsed = Amount::parse(text.as_str());
            tick_from_parsed(platform, market, &ticker.symbol, parsed, observed_at_millis)
        },
        None => None,
    }
}

/// Normalises the tickers of a stream, in order. Each ticker stands or falls
/// alone: one that cannot be read is dropped and the rest go on.
pub fn normalize_stream(stream: &PriceStream) -> (ticks: Vec<NormalizedTick>)
    ensures
        tick_views(ticks@) == ticks_of(
            stream.platform,
            stream.market,
            ticker_views(stream.tickers@),
            stream.local_time,
        ),
{
    let mut ticks: Vec<NormalizedTick> = Vec::new();
    let ghost all = ticker_views(stream.tickers@);
    let mut i: usize = 0;
    while i < stream.tickers.len()
        invariant
            i <= stream.tickers.len(),
            all == ticker_views(stream.tickers@),
            tick_views(ticks@) == ticks_of(
                stream.platform,
                stream.market,
                all.take(i as int),
                stream.local_time,
            ),
        decreases stream.tickers.len() - i,
    {
        let tick = normalize_ticker(
            stream.platform,
            stream.market,
            &stream.tickers[i],
            stream.local_time,
        );
        let ghost before = tick_views(ticks@);
        proof {
            assert(all.take(i + 1).drop_last() =~= all.take(i as int));
            assert(all.take(i + 1).last() == stream.tickers@[i as int]@);
        }
        match tick {
            Some(t) => {
                ticks.push(t);
                assert(tick_views(ticks@) =~= before.push(t@));
            },
            None => {},
        }
        i += 1;
    }
    assert(all.take(i as int) =~= all);
    ticks
}

/// Normalises an event that a platform's feed delivered at `now_millis`:
/// the ticks of its tickers, in order, possibly none.
pub fn normalize(platform: Platform, market: Market, event: WebSocketEvent, now_millis: i64) -> (ticks:
    Vec<NormalizedTick>)
    ensures
        tick_views(ticks@) == ticks_of(
            platform,
            market,
            event_tickers(platform, event, event_time_of(now_millis)),
            now_millis,
        ),
{
    let stream = price_stream_at(platform, market, event, now_millis);
    normalize_stream(&stream)
}

/// A ticker is forwarded only where it has a symbol and a price that reads
/// as a decimal number; its tick then carries that symbol and that price.
/// A ticker without a price is never forwarded.
pub proof fn lemma_tick_needs_symbol_and_price(
    platform: Platform,
    market: Market,
    ticker: Ticker,
    observed_at_millis: i64,
)
    ensures
        tick_of(platform, market, ticker, observed_at_millis) matches Some(tick) ==> {
            &&& ticker.symbol.len() > 0
            &&& ticker.current_close matches Some(text) && named(decimal_parse(text)) == Some(
                tick.price,
            )
            &&& tick.symbol == ticker.symbol
            &&& tick.platform == platform
            &&& tick.market == market
            &&& tick.observed_at_millis == observed_at_millis
        },
        tick_of(platform, market, ticker, observed_at_millis) is None ==> {
            ||| ticker.symbol.len() == 0
            ||| ticker.current_close is None
            ||| named(decimal_parse(ticker.current_close->0)) is None
        },
{
}

/// Every tick of a stream is the tick of one of its tickers: nothing is
/// made up, and no more ticks come out than tickers went in.
pub proof fn lemma_ticks_come_from_tickers(
    platform: Platform,
    market: Market,
    tickers: Seq<Ticker>,
    observed_at_millis: i64,
    k: int,
)
    requires
        0 <= k < ticks_of(platform, market, tickers, observed_at_millis).len(),
    ensures
        ticks_of(platform, market, tickers, observed_at_millis).len() <= tickers.len(),
        exists|i: int|
            0 <= i < tickers.len() && #[trigger] tick_of(
                platform,
                market,
                tickers[i],
                observed_at_millis,
            ) == Some(ticks_of(platform, market, tickers, observed_at_millis)[k]),
    decreases tickers.len(),
{
    let earlier = ticks_of(platform, market, tickers.drop_last(), observed_at_millis);
    lemma_ticks_are_no_more_than_tickers(platform, market, tickers, observed_at_millis);
    if k < earlier.len() {
        lemma_ticks_come_from_tickers(platform, market, tickers.drop_last(), observed_at_millis, k);
        let i = choose|i: int|
            0 <= i < tickers.drop_last().len() && #[trigger] tick_of(
                platform,
                market,
                tickers.drop_last()[i],
                observed_at_millis,
            ) == Some(earlier[k]);
        assert(tickers.drop_last()[i] == tickers[i]);
        assert(tick_of(platform, market, tickers[i], observed_at_millis) == Some(
            ticks_of(platform, market, tickers, observed_at_millis)[k],
        ));
    } else {
        assert(tick_of(platform, market, tickers[tickers.len() - 1], observed_at_millis) == Some(
            ticks_of(platform, market, tickers, observed_at_millis)[k],
        ));
    }
}

proof fn lemma_ticks_are_no_more_than_tickers(
    platform: Platform,
    market: Market,
    tickers: Seq<Ticker>,
    observed_at_millis: i64,
)
    ensures
        ticks_of(platform, market, tickers, observed_at_millis).len() <= tickers.len(),
    decreases tickers.len(),
{
    if tickers.len() > 0 {
        lemma_ticks_are_no_more_than_tickers(
            platform,
            market,
            tickers.drop_last(),
            observed_at_millis,
        );
    }
}

/// Every ticker that has a tick has it forwarded: a ticker that cannot be
/// read takes no other ticker with it.
pub proof fn lemma_readable_ticker_is_forwarded(
    platform: Platform,
    market: Market,
    tickers: Seq<Ticker>,
    observed_at_millis: i64,
    i: int,
)
    requires
        0 <= i < tickers.len(),
        tick_of(platform, market, tickers[i], observed_at_millis) is Some,
    ensures
        ticks_of(platform, market, tickers, observed_at_millis).contains(
            tick_of(platform, market, tickers[i], observed_at_millis)->0,
        ),
    decreases tickers.len(),
{
    let wanted = tick_of(platform, market, tickers[i], observed_at_millis)->0;
    let earlier = ticks_of(platform, market, tickers.drop_last(), observed_at_millis);
    let all = ticks_of(platform, market, tickers, observed_at_millis);
    if i < tickers.len() - 1 {
        assert(tickers.drop_last()[i] == tickers[i]);
        lemma_readable_ticker_is_forwarded(
            platform,
            market,
            tickers.drop_last(),
            observed_at_millis,
            i,
        );
        let at = choose|at: int| 0 <= at < earlier.len() && earlier[at] == wanted;
        assert(all[at] == wanted);
    } else {
        assert(all[earlier.len() as int] == wanted);
    }
}

} // verus!
