use super::sized::Sized;
use super::timed::Timed;
use crate::fnv_map::{map_clear, map_insert, map_new, map_remove};
use crate::traits::{Sealer, Transaction};
use fnv::FnvHashMap;
use vstd::prelude::*;

verus! {

/// The number that the hybrid sealer gives each update.
pub type Counter = usize;

/// The counters `0, 1, ..., n - 1`.
pub open spec fn counters(n: nat) -> Seq<Counter> {
    Seq::new(n, |i: int| i as Counter)
}

/// Triggers on whichever of a time-out and a size threshold comes first.
///
/// Both inner sealers hold the counters of the updates; a map takes each
/// counter back to its transaction.
pub struct HybridSealer<Tx> {
    timed_sealer: Timed<Counter>,
    sized_sealer: Sized<Counter>,
    map: FnvHashMap<Counter, Tx>,
    counter: Counter,
}

impl<Tx> HybridSealer<Tx> {
    /// The transactions held, oldest first.
    pub closed spec fn contents(&self) -> Seq<Tx> {
        Seq::new(self.counter as nat, |i: int| self.map@[i as Counter])
    }

    /// The time at which the time-out triggers.
    pub closed spec fn due_at(&self) -> u64 {
        self.timed_sealer.due_at()
    }

    /// The time-out, in milliseconds.
    pub closed spec fn period(&self) -> u64 {
        self.timed_sealer.period()
    }

    /// The size threshold.
    pub closed spec fn limit(&self) -> nat {
        self.sized_sealer.limit()
    }

    /// The sizes recorded since the last trigger, added up (capped at
    /// `usize::MAX`).
    pub closed spec fn size(&self) -> nat {
        self.sized_sealer.size()
    }

    /// Both inner sealers hold exactly the counters given out, and the map
    /// holds a transaction for each of them.
    pub closed spec fn inv(&self) -> bool {
        &&& self.timed_sealer.contents() == counters(self.counter as nat)
        &&& self.sized_sealer.contents() == counters(self.counter as nat)
        &&& forall|k: Counter| #[trigger] self.map@.contains_key(k) <==> k < self.counter
    }

    /// A sealer that holds nothing, made at time `now`.
    pub fn new(timeout: u64, max_size: usize, now: u64) -> (r: Self)
        ensures
            r.inv(),
            r.contents().len() == 0,
            r.period() == timeout,
            r.due_at() == super::timed::later(now, timeout),
            r.limit() == max_size,
            r.size() == 0,
    {
        let r = HybridSealer {
            timed_sealer: Timed::new(timeout, now),
            sized_sealer: Sized::new(max_size),
            map: map_new(),
            counter: 0,
        };
        assert(r.timed_sealer.contents() =~= counters(0));
        assert(r.sized_sealer.contents() =~= counters(0));
        r
    }

    /// Drops everything held and starts the time-out afresh at `now`.
    pub fn reset(&mut self, now: u64)
        ensures
            final(self).inv(),
            final(self).contents().len() == 0,
            final(self).period() == old(self).period(),
            final(self).due_at() == super::timed::later(now, old(self).period()),
            final(self).limit() == old(self).limit(),
            final(self).size() == 0,
    {
        let _ = <Timed<Counter> as Sealer<Counter>>::seal(&mut self.timed_sealer, now);
        let _ = <Sized<Counter> as Sealer<Counter>>::seal(&mut self.sized_sealer, now);
        map_clear(&mut self.map);
        self.counter = 0;
        assert(self.timed_sealer.contents() =~= counters(0));
        assert(self.sized_sealer.contents() =~= counters(0));
    }

    /// Takes the transactions of the counters `0 .. n` out of the map, in
    /// that order.
    fn take_in_order(&mut self, ids: Vec<Counter>) -> (out: Vec<Tx>)
        requires
            ids@ == counters(old(self).counter as nat),
            forall|k: Counter| k < old(self).counter ==> #[trigger] old(self).map@.contains_key(k),
        ensures
            out@ == old(self).contents(),
            final(self).counter == old(self).counter,
            final(self).timed_sealer == old(self).timed_sealer,
            final(self).sized_sealer == old(self).sized_sealer,
    {
        let mut out: Vec<Tx> = Vec::new();
        let n = ids.len();
        let mut i: usize = 0;
        while i < n
            invariant
                n == ids@.len(),
                ids@ == counters(old(self).counter as nat),
                0 <= i <= n,
                self.counter == old(self).counter,
                self.timed_sealer == old(self).timed_sealer,
                self.sized_sealer == old(self).sized_sealer,
                out@ == old(self).contents().take(i as int),
                forall|k: Counter|
                    i <= k < n ==> #[trigger] self.map@.contains_key(k) && self.map@[k]
                        == old(self).map@[k],
            decreases n - i,
        {
            let id = ids[i];
            assert(id == i);
            let tx = map_remove(&mut self.map, &id).unwrap();
            out.push(tx);
            assert(out@ =~= old(self).contents().take(i + 1));
            i = i + 1;
        }
        assert(old(self).contents().take(n as int) =~= old(self).contents());
        out
    }
}

impl<Tx: Transaction> Sealer<Tx> for HybridSealer<Tx> {
    open spec fn held(&self) -> Seq<Tx> {
        self.contents()
    }

    open spec fn wf(&self) -> bool {
        self.inv()
    }

    open spec fn fires(&self, now: u64) -> bool {
        now >= self.due_at() || self.size() >= self.limit()
    }

    open spec fn sealable(&self) -> bool {
        false
    }

    open spec fn deadline(&self) -> Option<u64> {
        Some(self.due_at())
    }

    fn update(&mut self, tx: Tx, tx_size: usize)
        ensures
            final(self).period() == old(self).period(),
            final(self).due_at() == old(self).due_at(),
            final(self).limit() == old(self).limit(),
            final(self).size() == super::sized::capped(old(self).size() + tx_size),
    {
        let ghost before = self.contents();
        map_insert(&mut self.map, self.counter, tx);
        self.sized_sealer.update(self.counter, tx_size);
        self.timed_sealer.update(self.counter, tx_size);
        self.counter = self.counter + 1;
        assert(self.timed_sealer.contents() =~= counters(self.counter as nat));
        assert(self.sized_sealer.contents() =~= counters(self.counter as nat));
        assert(self.contents() =~= before.push(tx));
    }

    /// The hybrid sealer is only ever emptied by triggering or by `reset`.
    fn seal(&mut self, now: u64) -> (r: Vec<Tx>) {
        Vec::new()
    }

    fn poll(&mut self, now: u64) -> (r: Option<Vec<Tx>>)
        ensures
            final(self).period() == old(self).period(),
            final(self).limit() == old(self).limit(),
            r is Some ==> final(self).due_at() == super::timed::later(now, old(self).period())
                && final(self).size() == 0,
            r is None ==> final(self).due_at() == old(self).due_at() && final(self).size()
                == old(self).size(),
            r is Some && now < old(self).due_at() ==> old(self).size() >= old(self).limit(),
    {
        if let Some(ids) = self.timed_sealer.poll(now) {
            let out = self.take_in_order(ids);
            self.reset(now);
            return Some(out);
        }
        if let Some(ids) = self.sized_sealer.poll(now) {
            let out = self.take_in_order(ids);
            self.reset(now);
            return Some(out);
        }
        None
    }

    fn len(&self) -> (r: usize) {
        self.counter
    }

    fn next_deadline(&self) -> (r: Option<u64>) {
        Some(self.timed_sealer.timeout_deadline())
    }
}

} // verus!
