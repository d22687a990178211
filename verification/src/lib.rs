//! Decision logic of an arbitrage bot for short-lived up/down prediction markets.
//!
//! Everything here computes on plain values; connections, clocks that sleep and
//! files belong to the program around this crate.

pub mod chainlink;
pub mod config;
pub mod decimal;
pub mod discovery;
pub mod models;
pub mod overlap;
pub mod pre_order;
pub mod round;
pub mod settlement;
pub mod signals;
pub mod strategy;
pub mod text;
pub mod ws;
