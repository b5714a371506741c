//! The handle through which bots reach the configuration-reading actor.
pub mod bot_config_provider_actor_adapter;
