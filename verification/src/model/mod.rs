//! The rows that the system keeps: one latest-price record per symbol and
//! the divergence signals derived from them.

pub mod arb_coin_price;
pub mod arb_diff_signal;

pub use arb_coin_price::{ArbCoinPrice, PriceRecord, Slot};
pub use arb_diff_signal::{ArbDiffSignal, Signal};
