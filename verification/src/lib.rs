//! Cross-exchange price divergence detection: ticker normalisation, a
//! per-symbol latest-price cache and the pairwise divergence scan.

pub mod binance;
pub mod clock;
pub mod decimal;
pub mod model;
pub mod service;
