//! One provider type over the file and database providers, chosen by an enum
//! rather than a trait object.
use vstd::prelude::*;
use crate::infra::config_providers::bot_config_provider_db::BotConfigProviderDB;
use crate::infra::config_providers::bot_config_provider_fs::{
    BotConfigProviderFs, ConfigError, DirEntryRead, apply_reads, file_errors, first_entry_error,
};
use crate::types::values::{BotConfig, BotName};

verus! {

/// The provider behind a [`BotConfigProviderDispatched`].
#[derive(Debug)]
pub enum BotConfigProviderDispather {
    Fs(BotConfigProviderFs),
    DB(BotConfigProviderDB),
}

/// A configuration provider of either kind.
#[derive(Debug)]
pub struct BotConfigProviderDispatched {
    pub dispatcher: BotConfigProviderDispather,
}

impl BotConfigProviderDispatched {
    pub fn new(dispatcher: BotConfigProviderDispather) -> (res: BotConfigProviderDispatched)
        ensures
            res.dispatcher == dispatcher,
    {
        BotConfigProviderDispatched { dispatcher }
    }

    /// Reads the configurations: for a file provider, applies the directory
    /// reads as [`BotConfigProviderFs::read_configs`] does; a database
    /// provider reports that it is not implemented.
    pub fn read_configs(&mut self, reads: Vec<DirEntryRead>) -> (res: Result<Vec<String>, ConfigError>)
        ensures
            match old(self).dispatcher {
                BotConfigProviderDispather::Fs(fs0) => final(self).dispatcher matches BotConfigProviderDispather::Fs(
                    fs1,
                ) && fs1.dir() == fs0.dir() && fs1.configs() == apply_reads(fs0.configs(), reads@) && match first_entry_error(reads@) {
                    Some(e) => res matches Err(ConfigError::ReadDir(t)) && t@ == e,
                    None => res matches Ok(errs) && errs@.map_values(|s: String| s@) == file_errors(reads@),
                },
                BotConfigProviderDispather::DB(_) => final(self).dispatcher == old(self).dispatcher && res matches Err(
                    ConfigError::NotImplemented,
                ),
            },
    {
        match &mut self.dispatcher {
            BotConfigProviderDispather::DB(db) => match db.read_configs() {
                Ok(()) => Ok(Vec::new()),
                Err(e) => Err(e),
            },
            BotConfigProviderDispather::Fs(fs) => fs.read_configs(reads),
        }
    }

    /// The configuration of `bot_name`: for a file provider, the one read
    /// under that name, if any; a database provider reports that it is not
    /// implemented.
    pub fn get_config(&mut self, bot_name: &BotName) -> (res: Result<Option<BotConfig>, ConfigError>)
        ensures
            final(self).dispatcher == old(self).dispatcher,
            match old(self).dispatcher {
                BotConfigProviderDispather::Fs(fs) => match res {
                    Ok(Some(c)) => fs.configs().contains_key(bot_name@) && fs.configs()[bot_name@] == c@,
                    Ok(None) => !fs.configs().contains_key(bot_name@),
                    Err(_) => false,
                },
                BotConfigProviderDispather::DB(_) => res matches Err(ConfigError::NotImplemented),
            },
    {
        match &self.dispatcher {
            BotConfigProviderDispather::DB(db) => db.get_config(bot_name),
            BotConfigProviderDispather::Fs(fs) => Ok(fs.get_config(bot_name)),
        }
    }
}

} // verus!
