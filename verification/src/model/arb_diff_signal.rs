//! A divergence signal: the record of two slots of one symbol whose prices
//! lay further apart than the threshold.

use crate::decimal::{Amount, Fixed};
use vstd::prelude::*;

verus! {

/// A divergence between two slots of a symbol. Its identity is the symbol
/// and the two slots compared, named by their price fields.
#[derive(Debug, Clone, PartialEq, Eq)]
pub struct ArbDiffSignal {
    pub id: i64,
    pub symbol: String,
    pub from_compare: String,
    pub to_compare: String,
    pub price_diff: Amount,
    pub price_diff_rate: Amount,
    pub binance_futures_price: Amount,
    pub bybit_futures_price: Amount,
    pub kucoin_futures_price: Amount,
    pub created: String,
    pub updated: String,
}

/// The mathematical content of an [`ArbDiffSignal`].
pub struct Signal {
    pub id: i64,
    pub symbol: Seq<char>,
    pub from_compare: Seq<char>,
    pub to_compare: Seq<char>,
    pub price_diff: Fixed,
    pub price_diff_rate: Fixed,
    pub binance_futures_price: Fixed,
    pub bybit_futures_price: Fixed,
    pub kucoin_futures_price: Fixed,
    pub created: Seq<char>,
    pub updated: Seq<char>,
}

impl View for ArbDiffSignal {
    type V = Signal;

    open spec fn view(&self) -> Signal {
        Signal {
            id: self.id,
            symbol: self.symbol@,
            from_compare: self.from_compare@,
            to_compare: self.to_compare@,
            price_diff: self.price_diff@,
            price_diff_rate: self.price_diff_rate@,
            binance_futures_price: self.binance_futures_price@,
            bybit_futures_price: self.bybit_futures_price@,
            kucoin_futures_price: self.kucoin_futures_price@,
            created: self.created@,
            updated: self.updated@,
        }
    }
}

impl Signal {
    /// Whether two signals have the same identity: symbol and both slots.
    pub open spec fn same_key(self, other: Signal) -> bool {
        &&& self.symbol == other.symbol
        &&& self.from_compare == other.from_compare
        &&& self.to_compare == other.to_compare
    }

    /// The stored signal after a recomputation: the difference, the rate, the
    /// price snapshot and the update time are those of `computed`; identity,
    /// id and creation time stay.
    pub open spec fn overwritten_by(self, computed: Signal) -> Signal {
        Signal {
            price_diff: computed.price_diff,
            price_diff_rate: computed.price_diff_rate,
            binance_futures_price: computed.binance_futures_price,
            bybit_futures_price: computed.bybit_futures_price,
            kucoin_futures_price: computed.kucoin_futures_price,
            updated: computed.updated,
            ..self
        }
    }
}

impl ArbDiffSignal {
    /// Whether the signal has the same identity as `other`.
    pub fn has_key_of(&self, other: &ArbDiffSignal) -> (same: bool)
        ensures
            same == self@.same_key(other@),
    {
        self.symbol == other.symbol && self.from_compare == other.from_compare && self.to_compare
            == other.to_compare
    }

    /// The stored signal after a recomputation: the computed difference,
    /// rate, price snapshot and update time under the stored identity, id and
    /// creation time.
    pub fn overwritten_by(self, computed: ArbDiffSignal) -> (row: ArbDiffSignal)
        ensures
            row@ == self@.overwritten_by(computed@),
    {
        ArbDiffSignal {
            id: self.id,
            symbol: self.symbol,
            from_compare: self.from_compare,
            to_compare: self.to_compare,
            price_diff: computed.price_diff,
            price_diff_rate: computed.price_diff_rate,
            binance_futures_price: computed.binance_futures_price,
            bybit_futures_price: computed.bybit_futures_price,
            kucoin_futures_price: computed.kucoin_futures_price,
            created: self.created,
            updated: computed.updated,
        }
    }

    /// A copy of the signal.
    pub fn duplicate(&self) -> (copy: ArbDiffSignal)
        ensures
            copy == *self,
    {
        ArbDiffSignal {
            id: self.id,
            symbol: self.symbol.clone(),
            from_compare: self.from_compare.clone(),
            to_compare: self.to_compare.clone(),
            price_diff: self.price_diff,
            price_diff_rate: self.price_diff_rate,
            binance_futures_price: self.binance_futures_price,
            bybit_futures_price: self.bybit_futures_price,
            kucoin_futures_price: self.kucoin_futures_price,
            created: self.created.clone(),
            updated: self.updated.clone(),
        }
    }
}

} // verus!
