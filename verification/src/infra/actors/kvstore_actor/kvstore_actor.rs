//! The key-value store actor and its messages.
use vstd::prelude::*;
use std::time::Duration;

verus! {

/// The actor holding a key-value store `S`.
pub struct KVStoreActor<S> {
    pub store: S,
}

impl<S> KVStoreActor<S> {
    pub fn new(store: S) -> (res: KVStoreActor<S>)
        ensures
            res.store == store,
    {
        KVStoreActor { store }
    }
}

/// Sets a key to a value.
pub struct SetValue(pub String, pub String);

/// Gets the value of a key.
pub struct Get(pub String);

/// Reconnects now and again after each period.
pub struct ReconnectEvery(pub Duration);

} // verus!
