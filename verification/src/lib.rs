//! Core library of an intraday options-trading engine for the Indian NSE
//! F&O segment.
//!
//! All prices, premiums and profit-and-loss figures are carried as integer
//! hundredths of a rupee; percentages appear as basis points (hundredths of
//! a percent) and volatility-index levels as hundredths of a point.  Times
//! are Unix epoch milliseconds.

pub mod aggregator;
pub mod analytics;
pub mod bus;
pub mod codec;
pub mod config;
pub mod error;
pub mod events;
pub mod holidays;
pub mod indicators;
pub mod orders;
pub mod positions;
pub mod premarket;
pub mod replay;
pub mod risk;
pub mod store;
pub mod strategy;
pub mod sync;
pub mod timeutil;
pub mod types;
pub mod util;
