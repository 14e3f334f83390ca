//! Exchange identities and the event shapes that the feeds deliver.
//!
//! Every numeric price travels as the decimal text that the exchange sent,
//! so that no binary floating point ever touches it.

use crate::clock::local_now_millis;
use vstd::prelude::*;
use vstd::string::*;

verus! {

/// An exchange that the system ingests tickers from.
#[derive(Debug, Clone, Copy, PartialEq, Eq, Structural)]
pub enum Platform {
    Binance,
    Bybit,
    Kucoin,
}

impl Platform {
    /// The display name of the platform, as a sequence of characters.
    pub open spec fn name(self) -> Seq<char> {
        match self {
            Platform::Binance => "Binance"@,
            Platform::Bybit => "Bybit"@,
            Platform::Kucoin => "Kucoin"@,
        }
    }

    /// The display name of the platform.
    pub fn as_str(&self) -> (s: &'static str)
        ensures
            s@ == self.name(),
    {
        match self {
            Platform::Binance => "Binance",
            Platform::Bybit => "Bybit",
            Platform::Kucoin => "Kucoin",
        }
    }
}

/// The kind of market a price was quoted on.
#[derive(Debug, Clone, Copy, PartialEq, Eq, Structural)]
pub enum Market {
    Spot,
    Futures,
}

impl Market {
    /// The lower-case name of the market, as a sequence of characters.
    pub open spec fn name(self) -> Seq<char> {
        match self {
            Market::Spot => "spot"@,
            Market::Futures => "futures"@,
        }
    }

    /// The lower-case name of the market.
    pub fn as_str(&self) -> (s: &'static str)
        ensures
            s@ == self.name(),
    {
        match self {
            Market::Spot => "spot",
            Market::Futures => "futures",
        }
    }
}

/// The ticker fields of a Bybit ticker message.
#[derive(Debug, Clone, PartialEq, Eq)]
pub struct TickerData {
    pub symbol: String,
    pub tick_direction: Option<String>,
    pub price_24h_pcnt: Option<String>,
    pub last_price: Option<String>,
    pub turnover_24h: Option<String>,
    pub volume_24h: Option<String>,
    pub bid1_price: Option<String>,
    pub bid1_size: Option<String>,
    pub ask1_price: Option<String>,
    pub ask1_size: Option<String>,
}

/// A Bybit ticker message: a snapshot or a delta for one symbol.
#[derive(Debug, Clone, PartialEq, Eq)]
pub struct BybitTickerEvent {
    pub topic: String,
    pub message_type: String,
    pub data: TickerData,
    pub cs: Option<u64>,
    pub ts: u64,
}

/// The ticker fields of a KuCoin contract message. Prices are kept as the
/// decimal text of the wire.
#[derive(Debug, Clone, PartialEq, Eq)]
pub struct KucoinTickerData {
    pub symbol: String,
    pub mark_price: Option<String>,
    pub index_price: Option<String>,
    pub granularity: Option<u64>,
    pub funding_rate: Option<String>,
    pub timestamp: u64,
}

/// A KuCoin contract message.
#[derive(Debug, Clone, PartialEq, Eq)]
pub struct KucoinTickerMessage {
    pub topic: String,
    pub message_type: String,
    pub data: KucoinTickerData,
    pub subject: String,
}

/// The greeting that KuCoin sends when a connection opens.
#[derive(Debug, Clone, PartialEq, Eq)]
pub struct WelcomeMessage {
    pub id: String,
    pub message_type: String,
}

/// Bybit's answer to a subscription request.
#[derive(Debug, Clone, PartialEq, Eq)]
pub struct SubscribeResponse {
    pub success: bool,
    pub ret_msg: String,
    pub conn_id: String,
    pub req_id: String,
    pub op: String,
}

/// A ticker in the common shape that every exchange's events are brought
/// into; natively it is Binance's mini-ticker.
#[derive(Debug, Clone, PartialEq, Eq)]
pub struct BinanceTickerEvent {
    pub event_type: String,
    pub event_time: u64,
    pub symbol: String,
    pub current_close: Option<String>,
    pub open: Option<String>,
    pub high: Option<String>,
    pub low: Option<String>,
    pub volume: Option<String>,
    pub quote_volume: Option<String>,
}

/// The mathematical content of a [`BinanceTickerEvent`].
pub struct Ticker {
    pub event_type: Seq<char>,
    pub event_time: u64,
    pub symbol: Seq<char>,
    pub current_close: Option<Seq<char>>,
    pub open: Option<Seq<char>>,
    pub high: Option<Seq<char>>,
    pub low: Option<Seq<char>>,
    pub volume: Option<Seq<char>>,
    pub quote_volume: Option<Seq<char>>,
}

impl View for BinanceTickerEvent {
    type V = Ticker;

    open spec fn view(&self) -> Ticker {
        Ticker {
            event_type: self.event_type@,
            event_time: self.event_time,
            symbol: self.symbol@,
            current_close: self.current_close.deep_view(),
            open: self.open.deep_view(),
            high: self.high.deep_view(),
            low: self.low.deep_view(),
            volume: self.volume.deep_view(),
            quote_volume: self.quote_volume.deep_view(),
        }
    }
}

impl Ticker {
    /// A ticker that carries nothing but a symbol, a closing price and the
    /// time it was received.
    pub open spec fn bare(symbol: Seq<char>, close: Option<Seq<char>>, event_time: u64) -> Ticker {
        Ticker {
            event_type: Seq::empty(),
            event_time,
            symbol,
            current_close: close,
            open: None,
            high: None,
            low: None,
            volume: None,
            quote_volume: None,
        }
    }
}

/// A symbol without its last character; the empty symbol stays empty.
pub open spec fn without_suffix(symbol: Seq<char>) -> Seq<char> {
    if symbol.len() > 0 {
        symbol.drop_last()
    } else {
        symbol
    }
}

/// Strips the trailing contract-type character from an exchange-native
/// symbol, so that `XBTUSDTM` becomes `XBTUSDT`.
pub fn strip_contract_suffix(symbol: &String) -> (stripped: String)
    ensures
        stripped@ == without_suffix(symbol@),
{
    let text = symbol.as_str();
    let length = text.unicode_len();
    if length > 0 {
        String::from_str(text.substring_char(0, length - 1))
    } else {
        String::from_str(text)
    }
}

impl BinanceTickerEvent {
    /// The common-shape ticker of a Bybit event received at `event_time`.
    pub open spec fn of_bybit(event: BybitTickerEvent, event_time: u64) -> Ticker {
        Ticker::bare(event.data.symbol@, event.data.last_price.deep_view(), event_time)
    }

    /// The common-shape ticker of a KuCoin message received at `event_time`:
    /// the symbol loses its trailing contract-type character and the mark
    /// price becomes the closing price.
    pub open spec fn of_kucoin(message: KucoinTickerMessage, event_time: u64) -> Ticker {
        Ticker::bare(
            without_suffix(message.data.symbol@),
            message.data.mark_price.deep_view(),
            event_time,
        )
    }

    /// Brings a Bybit event, received at `event_time`, into the common shape.
    pub fn from_bybit(event: BybitTickerEvent, event_time: u64) -> (ticker: BinanceTickerEvent)
        ensures
            ticker@ == Self::of_bybit(event, event_time),
    {
        BinanceTickerEvent {
            event_type: String::new(),
            event_time,
            symbol: event.data.symbol,
            current_close: event.data.last_price,
            open: None,
            high: None,
            low: None,
            volume: None,
            quote_volume: None,
        }
    }

    /// Brings a KuCoin message, received at `event_time`, into the common
    /// shape.
    pub fn from_kucoin(message: KucoinTickerMessage, event_time: u64) -> (ticker:
        BinanceTickerEvent)
        ensures
            ticker@ == Self::of_kucoin(message, event_time),
    {
        BinanceTickerEvent {
            event_type: String::new(),
            event_time,
            symbol: strip_contract_suffix(&message.data.symbol),
            current_close: message.data.mark_price,
            open: None,
            high: None,
            low: None,
            volume: None,
            quote_volume: None,
        }
    }

    /// A copy of the ticker.
    pub fn duplicate(&self) -> (copy: BinanceTickerEvent)
        ensures
            copy == *self,
    {
        BinanceTickerEvent {
            event_type: self.event_type.clone(),
            event_time: self.event_time,
            symbol: self.symbol.clone(),
            current_close: self.current_close.clone(),
            open: self.open.clone(),
            high: self.high.clone(),
            low: self.low.clone(),
            volume: self.volume.clone(),
            quote_volume: self.quote_volume.clone(),
        }
    }
}

/// The reception time that a ticker carries for a clock reading of
/// `millis` milliseconds since the Unix epoch.
pub open spec fn event_time_of(millis: i64) -> u64 {
    millis as u64
}

/// The reception time for a clock reading.
pub fn event_time_from_millis(millis: i64) -> (event_time: u64)
    ensures
        event_time == event_time_of(millis),
{
    #[verifier::truncate]
    (millis as u64)
}

impl From<Box<BybitTickerEvent>> for BinanceTickerEvent {
    /// Brings a Bybit event into the common shape, stamped with the local
    /// clock at the moment of the call.
    fn from(event: Box<BybitTickerEvent>) -> (ticker: BinanceTickerEvent)
        ensures
            ticker@ == Self::of_bybit(*event, ticker.event_time),
    {
        let event_time = event_time_from_millis(local_now_millis());
        BinanceTickerEvent::from_bybit(*event, event_time)
    }
}

impl vstd::std_specs::convert::FromSpecImpl<Box<BybitTickerEvent>> for BinanceTickerEvent {
    open spec fn obeys_from_spec() -> bool {
        false
    }

    open spec fn from_spec(event: Box<BybitTickerEvent>) -> BinanceTickerEvent {
        arbitrary()
    }
}

impl From<Box<KucoinTickerMessage>> for BinanceTickerEvent {
    /// Brings a KuCoin message into the common shape, stamped with the local
    /// clock at the moment of the call.
    fn from(message: Box<KucoinTickerMessage>) -> (ticker: BinanceTickerEvent)
        ensures
            ticker@ == Self::of_kucoin(*message, ticker.event_time),
    {
        let event_time = event_time_from_millis(local_now_millis());
        BinanceTickerEvent::from_kucoin(*message, event_time)
    }
}

impl vstd::std_specs::convert::FromSpecImpl<Box<KucoinTickerMessage>> for BinanceTickerEvent {
    open spec fn obeys_from_spec() -> bool {
        false
    }

    open spec fn from_spec(message: Box<KucoinTickerMessage>) -> BinanceTickerEvent {
        arbitrary()
    }
}

/// The place of the first `mark` in `text` at or after `from`; the length
/// of `text` where there is none.
pub open spec fn first_at(text: Seq<char>, mark: char, from: int) -> int
    decreases text.len() - from,
{
    if from >= text.len() {
        text.len() as int
    } else if text[from] == mark {
        from
    } else {
        first_at(text, mark, from + 1)
    }
}

/// The symbol that a topic such as `/market/ticker:BTC-USDT` names:
/// what stands between the first colon and the next is split at its hyphens,
/// and the first two pieces are joined. Empty where the topic has no colon
/// or that part no hyphen.
pub open spec fn topic_symbol(topic: Seq<char>) -> Seq<char> {
    let colon = first_at(topic, ':', 0);
    if colon >= topic.len() {
        Seq::empty()
    } else {
        let pair = topic.subrange(colon + 1, first_at(topic, ':', colon + 1));
        let hyphen = first_at(pair, '-', 0);
        if hyphen >= pair.len() {
            Seq::empty()
        } else {
            pair.subrange(0, hyphen) + pair.subrange(hyphen + 1, first_at(pair, '-', hyphen + 1))
        }
    }
}

/// The characters of a string slice.
fn chars_of(text: &str) -> (chars: Vec<char>)
    ensures
        chars@ == text@,
{
    let mut chars: Vec<char> = Vec::new();
    for c in it: text.chars()
        invariant
            it.seq() == text@,
            chars@ == it.seq().take(it.index() as int),
    {
        chars.push(c);
    }
    chars
}

/// Finds the first `mark` at or after `from`.
fn find_first(chars: &Vec<char>, mark: char, from: usize) -> (at: usize)
    requires
        from <= chars.len(),
    ensures
        at == first_at(chars@, mark, from as int),
        from <= at <= chars.len(),
{
    let mut i: usize = from;
    while i < chars.len()
        invariant
            from <= i <= chars.len(),
            first_at(chars@, mark, from as int) == first_at(chars@, mark, i as int),
        decreases chars.len() - i,
    {
        if chars[i] == mark {
            return i;
        }
        i += 1;
    }
    i
}

/// Reads the symbol out of a topic such as `/market/ticker:BTC-USDT`, which
/// gives `BTCUSDT`.
pub fn convert_ticker_string(ticker: &String) -> (symbol: String)
    ensures
        symbol@ == topic_symbol(ticker@),
{
    let topic = ticker.as_str();
    let chars = chars_of(topic);
    let colon = find_first(&chars, ':', 0);
    if colon >= chars.len() {
        return String::new();
    }
    let end = find_first(&chars, ':', colon + 1);
    let pair = topic.substring_char(colon + 1, end);
    let pair_chars = chars_of(pair);
    let hyphen = find_first(&pair_chars, '-', 0);
    if hyphen >= pair_chars.len() {
        return String::new();
    }
    let stop = find_first(&pair_chars, '-', hyphen + 1);
    let base = pair.substring_char(0, hyphen);
    let quote = pair.substring_char(hyphen + 1, stop);
    String::from_str(base).concat(quote)
}

/// A decoded payload of any of the feeds.
#[derive(Debug, Clone, PartialEq, Eq)]
pub enum WebSocketEvent {
    TickerDelta(Box<BybitTickerEvent>),
    MiniTicker(Box<Vec<BinanceTickerEvent>>),
    Subscribe(Box<SubscribeResponse>),
    KucoinTicker(Box<KucoinTickerMessage>),
    Welcome(Box<WelcomeMessage>),
}

} // verus!
