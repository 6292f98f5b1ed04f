//! Verified core of an altcoin trading bot for Binance USDT-margined futures:
//! symbol selection, request signing, decimal text, rolling windows,
//! candle-stream routing, state recovery and report tallies.

pub mod backtest;
pub mod dashboard;
pub mod decimal;
pub mod exchange;
pub mod models;
pub mod recovery;
pub mod requests;
pub mod routing;
pub mod signing;
pub mod strategy;
pub mod text;
pub mod window;
