//! Crypto up/down market arbitrage: pricing, sizing, market lifecycle, order and
//! position bookkeeping, stop-loss decisions and dashboard rendering, each with a
//! proved contract.
pub mod base;
pub mod config;
pub mod confirmed;
pub mod crosscorr;
pub mod crypto_arb;
pub mod dashboard;
pub mod decimal;
pub mod domain;
pub mod exchange;
pub mod fee_math;
pub mod mode_events;
pub mod mode_orders;
pub mod runtime;
pub mod services;
pub mod sizing;
pub mod sorting;
pub mod table;
pub mod tailend;
pub mod text;
pub mod time;
pub mod value;
