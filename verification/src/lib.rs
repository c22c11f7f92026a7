//! Verified core of a training-load analytics engine.
//!
//! The crate fixes, with machine-checked contracts, which samples, fields and
//! activities enter each derived metric: canonical sensor streams, rolling
//! power windows, activity summaries, dated ledgers, composite indices,
//! calendar-bucketed statistics and trend labels. Real-valued measurements
//! travel through it as binary64 bit patterns.

pub mod scalar;
pub mod text;
pub mod json;
pub mod schema;
pub mod power;
pub mod calendar;
pub mod utils;
pub mod config;
pub mod storage;
pub mod summary;
pub mod stats;
pub mod scores;
pub mod ledger;
pub mod trend;
pub mod query;
pub mod auth;
pub mod fit_parser;
pub mod fetch;
