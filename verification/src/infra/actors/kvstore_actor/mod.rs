//! The actor that holds the external key-value store, and its handle.
pub mod kvstore_actor;
pub mod kvstore_actor_adapter;
