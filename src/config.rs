use crate::traits::Round;
use vstd::prelude::*;

verus! {

/// The parameters of the mempool.
pub struct Config<R> {
    /// The depth of the garbage collection, in rounds.
    pub gc_depth: R,
    /// The delay, in milliseconds, after which the synchronizer asks other
    /// nodes for what it still misses.
    pub sync_retry_delay: u64,
    /// With how many nodes, picked at random, the synchronizer retries.
    pub sync_retry_nodes: usize,
}

impl<R: Round> Config<R> {
    /// The settings worth reporting at start-up, each with its name.
    pub fn log(&self) -> (r: Vec<(&'static str, u64)>)
        ensures
            r@.len() == 3,
            r@[0].0@ == "GC Depth"@ && r@[0].1 == self.gc_depth.rank(),
            r@[1].0@ == "Sync retry delay (ms)"@ && r@[1].1 == self.sync_retry_delay,
            r@[2].0@ == "Sync retry nodes"@ && r@[2].1 == self.sync_retry_nodes,
    {
        let mut r: Vec<(&'static str, u64)> = Vec::new();
        r.push(("GC Depth", self.gc_depth.number()));
        r.push(("Sync retry delay (ms)", self.sync_retry_delay));
        r.push(("Sync retry nodes", self.sync_retry_nodes as u64));
        r
    }
}

impl<R: Round> Default for Config<R> {
    fn default() -> (r: Self)
        ensures
            r.gc_depth.rank() == 0,
            r.sync_retry_delay == 100,
            r.sync_retry_nodes == 3,
    {
        Config { gc_depth: R::minimum(), sync_retry_delay: 100, sync_retry_nodes: 3 }
    }
}

} // verus!
