//! Names the configuration-reading actor and its refresh period.
use vstd::prelude::*;
use vstd::string::*;
use std::time::Duration;

verus! {

/// The name the configuration-reading actor is registered under, and how
/// often it refreshes. The provider itself is handed to the actor.
pub struct BotConfigProviderActorAdapter {
    pub name: String,
    pub refresh_configs_every: Duration,
}

impl BotConfigProviderActorAdapter {
    pub fn new(name: String, refresh_configs_every: Duration) -> (res: BotConfigProviderActorAdapter)
        ensures
            res.name == name,
            res.refresh_configs_every == refresh_configs_every,
    {
        BotConfigProviderActorAdapter { name, refresh_configs_every }
    }

    /// The name the actor is registered under.
    pub fn name(&self) -> (res: &str)
        ensures
            res@ == self.name@,
    {
        self.name.as_str()
    }
}

} // verus!
