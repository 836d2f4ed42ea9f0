//! Order-book engine for an exchange market-data feed, with the microstructure metrics
//! and the tradability validator built on it, and the signing, scoring, risk and
//! monitoring decisions around them. Prices are whole ticks, sizes whole lots, and
//! ratios fixed-point millionths (`fixed::SCALE`).

pub mod bybit;
pub mod clock;
pub mod config;
pub mod execution;
pub mod fixed;
pub mod monitor;
pub mod orderbook;
pub mod risk;
pub mod strategy;
pub mod telegram;
