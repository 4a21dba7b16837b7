//! A stream-analysis engine for a prediction market's trade feed: it
//! deduplicates incoming trades, narrows them through a filter pipeline, keeps
//! per-actor statistics with a time-to-live, and tracks per-market clusters of
//! fresh actors and hourly volume, raising each alert at most once per market.
//!
//! Money is fixed-point: prices and sizes in millionths, values in the product
//! of the two. Time is passed in as whole seconds.

pub mod api;
pub mod cluster;
pub mod config;
pub mod dedup;
pub mod filter;
pub mod message;
pub mod parse;
pub mod state;
pub mod stats;
pub mod text;
pub mod trade;
pub mod volume;
