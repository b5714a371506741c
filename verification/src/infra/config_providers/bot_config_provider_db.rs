//! Bot configurations kept in a database: not implemented, every operation
//! reports so.
use vstd::prelude::*;
use crate::infra::config_providers::bot_config_provider_fs::ConfigError;
use crate::types::values::{BotConfig, BotName};

verus! {

/// A provider reading configurations from the database at a URL.
#[derive(Debug)]
pub struct BotConfigProviderDB {
    _pg_url: String,
}

impl BotConfigProviderDB {
    /// Not implemented: always an error.
    pub fn try_new(_pg_url: &str) -> (res: Result<BotConfigProviderDB, ConfigError>)
        ensures
            res matches Err(ConfigError::NotImplemented),
    {
        Err(ConfigError::NotImplemented)
    }

    /// Not implemented: always an error.
    pub fn read_configs(&mut self) -> (res: Result<(), ConfigError>)
        ensures
            *final(self) == *old(self),
            res matches Err(ConfigError::NotImplemented),
    {
        Err(ConfigError::NotImplemented)
    }

    /// Not implemented: always an error.
    pub fn get_config(&self, _bot_name: &BotName) -> (res: Result<Option<BotConfig>, ConfigError>)
        ensures
            res matches Err(ConfigError::NotImplemented),
    {
        Err(ConfigError::NotImplemented)
    }
}

} // verus!
