//! Global BTC/USDT price index.
//!
//! Order books from several exchanges are merged, validated and reduced to
//! mid-prices, which are then combined into one time-weighted index price.
//! Prices and quantities are fixed-point integers with eight decimal places,
//! and instants are milliseconds since the Unix epoch.

pub mod binance;
pub mod config;
pub mod decimal;
pub mod error;
pub mod exchange;
pub mod huobi;
pub mod kraken;
pub mod merge;
pub mod models;
pub mod session;
pub mod text;
