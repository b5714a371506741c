//! Data and decisions of the actors that hold shared services.
pub mod bot_config_provider_actor;
pub mod kvstore_actor;
pub mod ws_market_data_provider_actor;
