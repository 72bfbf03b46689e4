//! Core of a quota-monitoring service: provider registry, credential
//! cipher, in-memory cache, fetch aggregation, threshold notifier and
//! scheduler state, with machine-checked contracts.

pub mod aggregator;
pub mod cache;
pub mod clock;
pub mod codec;
pub mod crypto;
pub mod error;
pub mod models;
pub mod notifier;
pub mod parse;
pub mod providers;
pub mod scheduler;
pub mod settings;
pub mod tray;
