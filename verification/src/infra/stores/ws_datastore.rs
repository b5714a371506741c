//! A named order book: a snapshot plus the diffs received since the last merge.
use vstd::prelude::*;
use vstd::string::*;
use crate::market::book::{law_normal_depth_reads_back, merge_depth_diffs, merged_depth, normal_depth};
use crate::market::liq::{Depth, DepthView};

verus! {

/// A named order book: the last merged snapshot and the diffs not merged yet.
#[derive(Debug)]
pub struct WsDatastore {
    name: String,
    depth_snapshot: Depth,
    depth_diffs: Vec<Depth>,
}

/// The contents of a store: its name, snapshot and pending diffs.
pub struct StoreView {
    pub name: Seq<char>,
    pub snapshot: DepthView,
    pub diffs: Seq<Depth>,
}

impl View for WsDatastore {
    type V = StoreView;

    closed spec fn view(&self) -> StoreView {
        StoreView { name: self.name@, snapshot: self.depth_snapshot@, diffs: self.depth_diffs@ }
    }
}

impl WsDatastore {
    /// An empty store called `name`.
    pub fn new(name: &str) -> (res: WsDatastore)
        ensures
            res@.name == name@,
            res@.snapshot.asks.len() == 0,
            res@.snapshot.bids.len() == 0,
            res@.diffs.len() == 0,
    {
        WsDatastore { name: String::from_str(name), depth_snapshot: Depth::new(), depth_diffs: Vec::new() }
    }

    pub fn name(&self) -> (res: &str)
        ensures
            res@ == self@.name,
    {
        self.name.as_str()
    }

    /// Replaces the snapshot; pending diffs stay pending.
    pub fn depth_set_snapshot(&mut self, d: Depth)
        ensures
            final(self)@.name == old(self)@.name,
            final(self)@.snapshot == d@,
            final(self)@.diffs == old(self)@.diffs,
    {
        self.depth_snapshot = d;
    }

    /// Merges the pending diffs, then gives the snapshot.
    pub fn depth_get(&mut self) -> (res: &Depth)
        ensures
            final(self)@.name == old(self)@.name,
            merged_depth(old(self)@.snapshot, old(self)@.diffs, final(self)@.snapshot),
            final(self)@.diffs.len() == 0,
            res@ == final(self)@.snapshot,
    {
        self.depth_merge_diffs();
        &self.depth_snapshot
    }

    /// Queues a diff for the next merge.
    pub fn depth_add_diff(&mut self, d: Depth)
        ensures
            final(self)@.name == old(self)@.name,
            final(self)@.snapshot == old(self)@.snapshot,
            final(self)@.diffs == old(self)@.diffs.push(d),
    {
        self.depth_diffs.push(d);
    }

    /// Merges the pending diffs into the snapshot and clears them.
    pub fn depth_merge_diffs(&mut self)
        ensures
            final(self)@.name == old(self)@.name,
            merged_depth(old(self)@.snapshot, old(self)@.diffs, final(self)@.snapshot),
            final(self)@.diffs.len() == 0,
    {
        let merged = merge_depth_diffs(&self.depth_snapshot, &self.depth_diffs);
        self.depth_snapshot = merged;
        self.depth_diffs = Vec::new();
    }
}

/// Reading a store gives back the snapshot last set on it, when nothing is
/// pending and the snapshot is normal (sides sorted best first, no zero
/// amount, within the depth limit).
pub proof fn law_store_reads_back_snapshot(store: StoreView, d: DepthView, read: DepthView)
    requires
        store.snapshot == d,
        store.diffs.len() == 0,
        normal_depth(d),
        merged_depth(store.snapshot, store.diffs, read),
    ensures
        read == d,
{
    assert(store.diffs =~= Seq::<Depth>::empty());
    law_normal_depth_reads_back(d, read);
}

} // verus!
