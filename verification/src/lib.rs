//! Backtesting of arbitrage opportunities between prediction markets.

pub mod analytics;
pub mod analytics_laws;
pub mod cli;
pub mod collector;
pub mod collector_laws;
pub mod counting;
pub mod export;
pub mod layout;
pub mod opportunity;
pub mod page_laws;
pub mod pages;
pub mod ranking;
pub mod report;
pub mod report_laws;
pub mod service;
pub mod sessions;
pub mod signal;
pub mod snapshot_report;
pub mod text;
pub mod tracker;
pub mod tracker_laws;
