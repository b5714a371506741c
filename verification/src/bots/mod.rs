//! Bots: the single-pair trading bot and how a bot's exchange is chosen.
pub mod exchanges;
pub mod singlepairbot;
