//! The actor that holds the configuration provider and refreshes it
//! periodically.
use vstd::prelude::*;
use std::time::Duration;
use crate::types::values::BotName;

verus! {

/// Asks for the configuration of a bot.
pub struct GetConfig {
    pub bot_name: BotName,
}

/// Refreshes the configurations now and again after each period.
pub struct RefreshConfigsEvery(pub Duration);

/// Why the actor could not be made.
#[derive(Debug)]
pub enum ActorInitError {
    Failed(String),
}

/// The configuration-reading actor: it holds the provider `P`; once asked to
/// refresh every period, it re-reads the configurations at that pace.
pub struct BotConfigProviderActor<P> {
    pub provider: P,
}

impl<P> BotConfigProviderActor<P> {
    /// An actor over `provider`. It acquires nothing, so it always succeeds.
    pub fn try_new(provider: P) -> (res: Result<BotConfigProviderActor<P>, ActorInitError>)
        ensures
            res matches Ok(a) && a.provider == provider,
    {
        Ok(BotConfigProviderActor { provider })
    }
}

} // verus!
