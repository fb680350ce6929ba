//! A backtesting engine for minute-bar market data: typed time values,
//! fixed-point amounts, wallets, orders and positions, an aligned candle
//! store, and the scheduler that validates a run and steps simulated time.

pub mod amount;
pub mod backtest;
pub mod candle;
pub mod context;
pub mod error;
pub mod holdings;
pub mod ledger;
pub mod market;
pub mod model;
pub mod order;
pub mod position;
pub mod time;
pub mod wallet;
