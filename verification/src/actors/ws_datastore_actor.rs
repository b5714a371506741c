//! The per-symbol order-book store actor: its registered name and messages.
use vstd::prelude::*;
use vstd::string::*;
use std::time::Duration;
use crate::infra::stores::ws_datastore::WsDatastore;
use crate::market::liq::Depth;
use crate::market::symbol::{Symbol, SymbolView, symbol_text};

verus! {

/// The name the order-book store of a symbol is registered under.
pub open spec fn datastore_actor_name_spec(s: SymbolView) -> Seq<char> {
    symbol_text(s) + ":ws_datastore"@
}

/// The name the order-book store of `symbol` is registered under:
/// `exchange:BASE/QUOTE:ws_datastore`.
pub fn datastore_actor_name(symbol: &Symbol) -> (res: String)
    ensures
        res@ == datastore_actor_name_spec(symbol@),
{
    let mut name = symbol.to_string();
    name.append(":ws_datastore");
    name
}

/// The actor holding one order-book store.
pub struct WsDatastoreActor {
    pub store: WsDatastore,
}

impl WsDatastoreActor {
    pub fn new(store: WsDatastore) -> (res: WsDatastoreActor)
        ensures
            res.store == store,
    {
        WsDatastoreActor { store }
    }
}

/// Replaces the order book.
pub struct DepthSetSnapshot(pub Depth);

/// Queues a diff of the order book.
pub struct DepthAddDiff(pub Depth);

/// Asks for the merged order book.
pub struct DepthGet;

/// Merges pending diffs now and again after each period.
pub struct DepthMergeDiffsEvery(pub Duration);

/// Exports the order book now and again after each period.
pub struct ExportToRedisEvery(pub Duration);

} // verus!
