//! The market-data store that the websocket provider feeds, with a handle to
//! an external key-value store that the merged book is exported to.
use vstd::prelude::*;
use vstd::string::*;
use crate::infra::stores::ws_datastore::StoreView;
use crate::market::book::{merge_depth_diffs, merged_depth};
use crate::market::liq::Depth;

verus! {

/// A named order book (snapshot plus pending diffs) and the external store
/// `K` that it is exported to.
pub struct DefaultWsMarketDataStore<K> {
    name: String,
    depth_snapshot: Depth,
    depth_diffs: Vec<Depth>,
    /// used for exporting purposes
    external_kvstore: K,
}

impl<K> View for DefaultWsMarketDataStore<K> {
    type V = StoreView;

    closed spec fn view(&self) -> StoreView {
        StoreView { name: self.name@, snapshot: self.depth_snapshot@, diffs: self.depth_diffs@ }
    }
}

/// The key under which the book of the store `name` is exported.
pub open spec fn export_key_spec(name: Seq<char>) -> Seq<char> {
    name + ":depth"@
}

impl<K> DefaultWsMarketDataStore<K> {
    /// An empty store called `name`, exporting to `external_kvstore`.
    pub fn new(name: &str, external_kvstore: K) -> (res: Self)
        ensures
            res@.name == name@,
            res@.snapshot.asks.len() == 0,
            res@.snapshot.bids.len() == 0,
            res@.diffs.len() == 0,
            res.external_kvstore() == external_kvstore,
    {
        DefaultWsMarketDataStore {
            name: String::from_str(name),
            depth_snapshot: Depth::new(),
            depth_diffs: Vec::new(),
            external_kvstore,
        }
    }

    /// The external store handle.
    pub closed spec fn external_kvstore(&self) -> K {
        self.external_kvstore
    }

    /// The external store handle, for the export.
    pub fn external_kvstore_mut(&mut self) -> (res: &mut K)
        ensures
            *res == old(self).external_kvstore(),
            final(self)@ == old(self)@,
            final(self).external_kvstore() == *final(res),
    {
        &mut self.external_kvstore
    }

    pub fn name(&self) -> (res: &str)
        ensures
            res@ == self@.name,
    {
        self.name.as_str()
    }

    /// Merges the pending diffs into the snapshot and clears them.
    pub fn depth_merge_diffs(&mut self)
        ensures
            final(self)@.name == old(self)@.name,
            merged_depth(old(self)@.snapshot, old(self)@.diffs, final(self)@.snapshot),
            final(self)@.diffs.len() == 0,
            final(self).external_kvstore() == old(self).external_kvstore(),
    {
        let merged = merge_depth_diffs(&self.depth_snapshot, &self.depth_diffs);
        self.depth_snapshot = merged;
        self.depth_diffs = Vec::new();
    }

    /// Replaces the snapshot; pending diffs stay pending.
    pub fn depth_set_snapshot(&mut self, d: Depth)
        ensures
            final(self)@.name == old(self)@.name,
            final(self)@.snapshot == d@,
            final(self)@.diffs == old(self)@.diffs,
            final(self).external_kvstore() == old(self).external_kvstore(),
    {
        self.depth_snapshot = d;
    }

    /// Merges the pending diffs, then gives a copy of the snapshot.
    pub fn depth_get(&mut self) -> (res: Box<Depth>)
        ensures
            final(self)@.name == old(self)@.name,
            merged_depth(old(self)@.snapshot, old(self)@.diffs, final(self)@.snapshot),
            final(self)@.diffs.len() == 0,
            res@ == final(self)@.snapshot,
            final(self).external_kvstore() == old(self).external_kvstore(),
    {
        self.depth_merge_diffs();
        Box::new(self.depth_snapshot.duplicate())
    }

    /// Queues a diff for the next merge.
    pub fn depth_add_diff(&mut self, d: Depth)
        ensures
            final(self)@.name == old(self)@.name,
            final(self)@.snapshot == old(self)@.snapshot,
            final(self)@.diffs == old(self)@.diffs.push(d),
            final(self).external_kvstore() == old(self).external_kvstore(),
    {
        self.depth_diffs.push(d);
    }

    /// The key the merged book is exported under: the store's name followed
    /// by `:depth`.
    pub fn export_key(&self) -> (res: String)
        ensures
            res@ == export_key_spec(self@.name),
    {
        let mut key = self.name.clone();
        key.append(":depth");
        key
    }
}

} // verus!
