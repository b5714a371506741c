//! Names the key-value store actor, its store URL and reconnect period.
use vstd::prelude::*;
use vstd::string::*;
use std::time::Duration;

verus! {

/// The handle of the key-value store actor.
#[derive(Debug)]
pub struct KVStoreActorAdapter {
    pub name: String,
    pub url: String,
    pub reconnect_every: Duration,
}

impl KVStoreActorAdapter {
    pub fn new(name: &str, url: &str, reconnect_every: Duration) -> (res: KVStoreActorAdapter)
        ensures
            res.name@ == name@,
            res.url@ == url@,
            res.reconnect_every == reconnect_every,
    {
        KVStoreActorAdapter { name: String::from_str(name), url: String::from_str(url), reconnect_every }
    }

    /// A copy of this handle.
    pub fn duplicate(&self) -> (res: KVStoreActorAdapter)
        ensures
            res.name == self.name,
            res.url == self.url,
            res.reconnect_every == self.reconnect_every,
    {
        KVStoreActorAdapter { name: self.name.clone(), url: self.url.clone(), reconnect_every: self.reconnect_every }
    }
}

} // verus!
