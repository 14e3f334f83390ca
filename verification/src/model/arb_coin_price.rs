//! The latest-price record of a symbol and the slots it is made of.

use crate::binance::ws_model::{Market, Platform};
use crate::decimal::{optional_fixed, Amount, Fixed};
use vstd::prelude::*;
use vstd::string::*;

verus! {

/// Status of a divergence that is not being acted on.
pub const DIFF_STATUS_UN_RUN: i8 = 0;

/// Status of a divergence that is being acted on.
pub const DIFF_STATUS_RUN: i8 = 1;

/// A price slot: one market of one platform.
#[derive(Debug, Clone, Copy, PartialEq, Eq, Structural)]
pub enum Slot {
    BinanceSpot,
    BinanceFutures,
    BybitSpot,
    BybitFutures,
    KucoinSpot,
    KucoinFutures,
}

impl Slot {
    /// The slot of a platform's market.
    pub open spec fn at(platform: Platform, market: Market) -> Slot {
        match (platform, market) {
            (Platform::Binance, Market::Spot) => Slot::BinanceSpot,
            (Platform::Binance, Market::Futures) => Slot::BinanceFutures,
            (Platform::Bybit, Market::Spot) => Slot::BybitSpot,
            (Platform::Bybit, Market::Futures) => Slot::BybitFutures,
            (Platform::Kucoin, Market::Spot) => Slot::KucoinSpot,
            (Platform::Kucoin, Market::Futures) => Slot::KucoinFutures,
        }
    }

    /// The slot of a platform's market.
    pub fn of(platform: Platform, market: Market) -> (slot: Slot)
        ensures
            slot == Slot::at(platform, market),
    {
        match platform {
            Platform::Binance => match market {
                Market::Spot => Slot::BinanceSpot,
                Market::Futures => Slot::BinanceFutures,
            },
            Platform::Bybit => match market {
                Market::Spot => Slot::BybitSpot,
                Market::Futures => Slot::BybitFutures,
            },
            Platform::Kucoin => match market {
                Market::Spot => Slot::KucoinSpot,
                Market::Futures => Slot::KucoinFutures,
            },
        }
    }

    /// The platform of the slot.
    pub open spec fn platform(self) -> Platform {
        match self {
            Slot::BinanceSpot => Platform::Binance,
            Slot::BinanceFutures => Platform::Binance,
            Slot::BybitSpot => Platform::Bybit,
            Slot::BybitFutures => Platform::Bybit,
            Slot::KucoinSpot => Platform::Kucoin,
            Slot::KucoinFutures => Platform::Kucoin,
        }
    }

    /// The market of the slot.
    pub open spec fn market(self) -> Market {
        match self {
            Slot::BinanceSpot => Market::Spot,
            Slot::BinanceFutures => Market::Futures,
            Slot::BybitSpot => Market::Spot,
            Slot::BybitFutures => Market::Futures,
            Slot::KucoinSpot => Market::Spot,
            Slot::KucoinFutures => Market::Futures,
        }
    }

    /// The platform of the slot.
    pub fn platform_of(&self) -> (platform: Platform)
        ensures
            platform == self.platform(),
    {
        match self {
            Slot::BinanceSpot => Platform::Binance,
            Slot::BinanceFutures => Platform::Binance,
            Slot::BybitSpot => Platform::Bybit,
            Slot::BybitFutures => Platform::Bybit,
            Slot::KucoinSpot => Platform::Kucoin,
            Slot::KucoinFutures => Platform::Kucoin,
        }
    }

    /// The market of the slot.
    pub fn market_of(&self) -> (market: Market)
        ensures
            market == self.market(),
    {
        match self {
            Slot::BinanceSpot => Market::Spot,
            Slot::BinanceFutures => Market::Futures,
            Slot::BybitSpot => Market::Spot,
            Slot::BybitFutures => Market::Futures,
            Slot::KucoinSpot => Market::Spot,
            Slot::KucoinFutures => Market::Futures,
        }
    }

    /// The name of the slot's price field.
    pub open spec fn field_name(self) -> Seq<char> {
        match self {
            Slot::BinanceSpot => "binance_spot_price"@,
            Slot::BinanceFutures => "binance_futures_price"@,
            Slot::BybitSpot => "bybit_spot_price"@,
            Slot::BybitFutures => "bybit_futures_price"@,
            Slot::KucoinSpot => "kucoin_spot_price"@,
            Slot::KucoinFutures => "kucoin_futures_price"@,
        }
    }

    /// The name of the slot's price field.
    pub fn price_field(&self) -> (name: &'static str)
        ensures
            name@ == self.field_name(),
    {
        match self {
            Slot::BinanceSpot => "binance_spot_price",
            Slot::BinanceFutures => "binance_futures_price",
            Slot::BybitSpot => "bybit_spot_price",
            Slot::BybitFutures => "bybit_futures_price",
            Slot::KucoinSpot => "kucoin_spot_price",
            Slot::KucoinFutures => "kucoin_futures_price",
        }
    }

    /// Whether a price record has a field for the slot. A record holds the
    /// spot and futures prices of Binance and the futures prices of Bybit and
    /// KuCoin; the spot markets of Bybit and KuCoin have no field, and a tick
    /// for them is refused.
    pub open spec fn recorded(self) -> bool {
        self != Slot::BybitSpot && self != Slot::KucoinSpot
    }

    /// Whether a price record has a field for the slot.
    pub fn is_recorded(&self) -> (recorded: bool)
        ensures
            recorded == self.recorded(),
    {
        match self {
            Slot::BybitSpot => false,
            Slot::KucoinSpot => false,
            _ => true,
        }
    }
}

/// The latest prices of one symbol, one per recorded slot. A price of zero
/// means that no tick has reached the slot yet.
#[derive(Debug, Clone, PartialEq, Eq)]
pub struct ArbCoinPrice {
    pub id: i64,
    pub platform: String,
    pub symbol: String,
    pub binance_spot_price: Amount,
    pub binance_futures_price: Amount,
    pub bybit_futures_price: Amount,
    pub kucoin_futures_price: Amount,
    pub created: String,
    pub updated: String,
    pub bak: Option<String>,
}

/// The mathematical content of an [`ArbCoinPrice`].
pub struct PriceRecord {
    pub id: i64,
    pub platform: Seq<char>,
    pub symbol: Seq<char>,
    pub binance_spot_price: Fixed,
    pub binance_futures_price: Fixed,
    pub bybit_futures_price: Fixed,
    pub kucoin_futures_price: Fixed,
    pub created: Seq<char>,
    pub updated: Seq<char>,
    pub bak: Option<Seq<char>>,
}

impl View for ArbCoinPrice {
    type V = PriceRecord;

    open spec fn view(&self) -> PriceRecord {
        PriceRecord {
            id: self.id,
            platform: self.platform@,
            symbol: self.symbol@,
            binance_spot_price: self.binance_spot_price@,
            binance_futures_price: self.binance_futures_price@,
            bybit_futures_price: self.bybit_futures_price@,
            kucoin_futures_price: self.kucoin_futures_price@,
            created: self.created@,
            updated: self.updated@,
            bak: self.bak.deep_view(),
        }
    }
}

impl PriceRecord {
    /// The record of a symbol that no tick has reached: every slot at zero,
    /// created and updated at `now`, not yet stored (id 0), under the
    /// platform that it was first seen on.
    pub open spec fn fresh(symbol: Seq<char>, platform: Platform, now: Seq<char>) -> PriceRecord {
        PriceRecord {
            id: 0,
            platform: platform.name(),
            symbol,
            binance_spot_price: Fixed { mantissa: 0, scale: 0 },
            binance_futures_price: Fixed { mantissa: 0, scale: 0 },
            bybit_futures_price: Fixed { mantissa: 0, scale: 0 },
            kucoin_futures_price: Fixed { mantissa: 0, scale: 0 },
            created: now,
            updated: now,
            bak: None,
        }
    }

    /// The price in a slot; `None` for a slot that the record has no field
    /// for.
    pub open spec fn price(self, slot: Slot) -> Option<Fixed> {
        match slot {
            Slot::BinanceSpot => Some(self.binance_spot_price),
            Slot::BinanceFutures => Some(self.binance_futures_price),
            Slot::BybitFutures => Some(self.bybit_futures_price),
            Slot::KucoinFutures => Some(self.kucoin_futures_price),
            Slot::BybitSpot => None,
            Slot::KucoinSpot => None,
        }
    }

    /// The record after a tick: the named slot holds `price`, the update time
    /// is `now`, and nothing else has changed. A slot without a field leaves
    /// the record as it is.
    pub open spec fn with_price(self, slot: Slot, price: Fixed, now: Seq<char>) -> PriceRecord {
        match slot {
            Slot::BinanceSpot => PriceRecord { binance_spot_price: price, updated: now, ..self },
            Slot::BinanceFutures => PriceRecord {
                binance_futures_price: price,
                updated: now,
                ..self
            },
            Slot::BybitFutures => PriceRecord { bybit_futures_price: price, updated: now, ..self },
            Slot::KucoinFutures => PriceRecord {
                kucoin_futures_price: price,
                updated: now,
                ..self
            },
            Slot::BybitSpot => self,
            Slot::KucoinSpot => self,
        }
    }
}

impl ArbCoinPrice {
    /// The record of a symbol that no tick has reached yet.
    pub fn new(symbol: String, platform: Platform, now: String) -> (record: ArbCoinPrice)
        ensures
            record@ == PriceRecord::fresh(symbol@, platform, now@),
    {
        let created = now.clone();
        ArbCoinPrice {
            id: 0,
            platform: String::from_str(platform.as_str()),
            symbol,
            binance_spot_price: Amount::zero(),
            binance_futures_price: Amount::zero(),
            bybit_futures_price: Amount::zero(),
            kucoin_futures_price: Amount::zero(),
            created,
            updated: now,
            bak: None,
        }
    }

    /// The price in a slot; `None` for a slot that the record has no field
    /// for.
    pub fn price(&self, slot: Slot) -> (price: Option<Amount>)
        ensures
            optional_fixed(price) == self@.price(slot),
    {
        match slot {
            Slot::BinanceSpot => Some(self.binance_spot_price),
            Slot::BinanceFutures => Some(self.binance_futures_price),
            Slot::BybitFutures => Some(self.bybit_futures_price),
            Slot::KucoinFutures => Some(self.kucoin_futures_price),
            Slot::BybitSpot => None,
            Slot::KucoinSpot => None,
        }
    }

    /// Writes a tick into the record: sets the named slot and the update
    /// time and leaves every other field as it was. Returns whether the
    /// record has a field for the slot; where it has none, nothing changes.
    pub fn set_price(&mut self, slot: Slot, price: Amount, now: String) -> (written: bool)
        ensures
            written == slot.recorded(),
            final(self)@ == old(self)@.with_price(slot, price@, now@),
    {
        match slot {
            Slot::BinanceSpot => {
                self.binance_spot_price = price;
                self.updated = now;
                true
            },
            Slot::BinanceFutures => {
                self.binance_futures_price = price;
                self.updated = now;
                true
            },
            Slot::BybitFutures => {
                self.bybit_futures_price = price;
                self.updated = now;
                true
            },
            Slot::KucoinFutures => {
                self.kucoin_futures_price = price;
                self.updated = now;
                true
            },
            Slot::BybitSpot => false,
            Slot::KucoinSpot => false,
        }
    }

    /// A copy of the record.
    pub fn duplicate(&self) -> (copy: ArbCoinPrice)
        ensures
            copy == *self,
    {
        ArbCoinPrice {
            id: self.id,
            platform: self.platform.clone(),
            symbol: self.symbol.clone(),
            binance_spot_price: self.binance_spot_price,
            binance_futures_price: self.binance_futures_price,
            bybit_futures_price: self.bybit_futures_price,
            kucoin_futures_price: self.kucoin_futures_price,
            created: self.created.clone(),
            updated: self.updated.clone(),
            bak: self.bak.clone(),
        }
    }
}

} // verus!
