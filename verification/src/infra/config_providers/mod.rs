//! Where bot configurations come from: a directory of files, a database, or
//! either behind one enum.
pub mod bot_config_provider_db;
pub mod bot_config_provider_dispatched;
pub mod bot_config_provider_fs;
