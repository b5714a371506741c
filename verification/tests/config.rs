use mm::infra::config_providers::bot_config_provider_db::BotConfigProviderDB;
use mm::infra::config_providers::bot_config_provider_dispatched::{BotConfigProviderDispatched, BotConfigProviderDispather};
use mm::infra::config_providers::bot_config_provider_fs::{BotConfigProviderFs, ConfigError, DirEntryRead};
use mm::market::symbol::Symbol;
use mm::types::values::{BotConfig, BotKind, MultiBotConfig, SingleBotConfig};

fn single(sym: &str, ms: u64) -> BotConfig {
    BotConfig::Single(SingleBotConfig { symbol: Symbol::try_from_text(sym).unwrap(), trade_iter_interval_millis: ms })
}

fn interval(c: &Option<BotConfig>) -> u64 {
    match c {
        Some(BotConfig::Single(s)) => s.trade_iter_interval_millis,
        Some(BotConfig::Multi(m)) => m.trade_iter_interval_millis,
        None => panic!("no config"),
    }
}

#[test]
fn bot_kind_from_file_name() {
    assert_eq!(BotConfigProviderFs::bot_kind("exmo_single_btc.json").unwrap(), BotKind::Single);
    assert_eq!(BotConfigProviderFs::bot_kind("okx_multi.json").unwrap(), BotKind::Multi);
    assert_eq!(BotConfigProviderFs::bot_kind("single_multi.json").unwrap(), BotKind::Single);
    assert_eq!(BotConfigProviderFs::bot_kind("bot.json").unwrap_err(), ConfigError::UnknownBotKind("bot.json".into()));
}

#[test]
fn bot_name_is_the_file_stem() {
    assert_eq!(BotConfigProviderFs::bot_name("exmo_single.json").unwrap(), "exmo_single");
    assert_eq!(BotConfigProviderFs::bot_name("a.b.json").unwrap(), "a.b");
    assert_eq!(BotConfigProviderFs::bot_name("noext").unwrap(), "noext");
    assert_eq!(BotConfigProviderFs::bot_name(".hidden").unwrap(), ".hidden");
    assert_eq!(BotConfigProviderFs::bot_name("trailing.").unwrap(), "trailing");
    assert_eq!(BotConfigProviderFs::bot_name("").unwrap_err(), ConfigError::NoFileStem("".into()));
    assert_eq!(BotConfigProviderFs::bot_name("..").unwrap_err(), ConfigError::NoFileStem("..".into()));
}

#[test]
fn read_configs_keeps_the_last_config_of_a_name() {
    let mut fs = BotConfigProviderFs::new("/configs");
    assert_eq!(fs.dir_path, "/configs");
    let errs = fs
        .read_configs(vec![
            DirEntryRead::Config("a".into(), single("exmo:BTC/USDT", 1)),
            DirEntryRead::Dir,
            DirEntryRead::ConfigError("bad json".into()),
            DirEntryRead::Config("b".into(), BotConfig::Multi(MultiBotConfig { symbols: vec![], trade_iter_interval_millis: 7 })),
            DirEntryRead::Config("a".into(), single("exmo:ETH/USDT", 2)),
        ])
        .unwrap();
    assert_eq!(errs, vec!["bad json".to_string()]);
    assert_eq!(interval(&fs.get_config(&"a".to_string())), 2);
    assert_eq!(interval(&fs.get_config(&"b".to_string())), 7);
    assert!(fs.get_config(&"c".to_string()).is_none());
}

#[test]
fn read_configs_failing_file_keeps_previous_config() {
    let mut fs = BotConfigProviderFs::new("/configs");
    fs.read_configs(vec![DirEntryRead::Config("a".into(), single("exmo:BTC/USDT", 1))]).unwrap();
    fs.read_configs(vec![DirEntryRead::ConfigError("a.json: unreadable".into())]).unwrap();
    assert_eq!(interval(&fs.get_config(&"a".to_string())), 1);
}

#[test]
fn read_configs_stops_at_a_listing_error() {
    let mut fs = BotConfigProviderFs::new("/configs");
    let res = fs.read_configs(vec![
        DirEntryRead::Config("a".into(), single("exmo:BTC/USDT", 1)),
        DirEntryRead::EntryError("io".into()),
        DirEntryRead::Config("b".into(), single("exmo:BTC/USDT", 1)),
    ]);
    assert_eq!(res.unwrap_err(), ConfigError::ReadDir("io".into()));
    assert!(fs.get_config(&"a".to_string()).is_some());
    assert!(fs.get_config(&"b".to_string()).is_none());
}

#[test]
fn db_provider_is_not_implemented() {
    assert_eq!(BotConfigProviderDB::try_new("postgres://x").unwrap_err(), ConfigError::NotImplemented);
}

#[test]
fn dispatched_provider_delegates_to_fs() {
    let mut p = BotConfigProviderDispatched::new(BotConfigProviderDispather::Fs(BotConfigProviderFs::new("/c")));
    p.read_configs(vec![DirEntryRead::Config("x".into(), single("okx:BTC/USDT", 3))]).unwrap();
    assert_eq!(interval(&p.get_config(&"x".to_string()).unwrap()), 3);
    assert!(p.get_config(&"y".to_string()).unwrap().is_none());
}
