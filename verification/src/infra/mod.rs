//! Stores, configuration providers, exchange connectors and actor plumbing.
pub mod actors;
pub mod config_providers;
pub mod connectors;
pub mod stores;
