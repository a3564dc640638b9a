//! Candle aggregation for a market-data feed.
//!
//! A stream of ticks is folded, per symbol and per timerange, into
//! open-high-low-close-volume candles. Every step of that fold, the registry
//! of downstream subscribers and the framing of provider and subscriber
//! messages are stated as contracts over mathematical models and proved.
//!
//! Prices and volumes are exact integers counted in units of
//! `10^-8` ([`amount::AMOUNT_SCALE`] units make one whole): prices in 64
//! bits, volumes in 128.

pub mod amount;
pub mod candle;
pub mod catalog;
pub mod config;
pub mod engine;
pub mod hub;
pub mod provider;
pub mod session;
pub mod store;
pub mod text;
pub mod timerange;
