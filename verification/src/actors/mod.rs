//! Actors keyed by name: the per-symbol order-book store.
pub mod bot_config_provider_actor;
pub mod ws_datastore_actor;
