use crate::fnv_map::{map_contains, map_get, map_insert, map_keys, map_new, map_remove};
use crate::msg::{Digest, MempoolMsg};
use crate::quorum_waiter::copy_vec;
use crate::traits::Round;
use fnv::FnvHashMap;
use vstd::prelude::*;

verus! {

/// What the synchronizer keeps of a digest it asked for.
#[derive(Clone, Copy)]
pub struct PendingEntry<R> {
    /// The round in which it was asked for.
    pub round: R,
    /// The time (in milliseconds) at which it was first asked for.
    pub requested_at: u64,
    /// The waiter that watches the store for it.
    pub waiter: u64,
}

/// `m` asks for the batches of `digests` on behalf of `source`.
pub open spec fn is_request<Id, Tx>(m: MempoolMsg<Id, Tx>, source: Id, digests: Seq<Digest>) -> bool {
    match m {
        MempoolMsg::RequestBatch(s, v) => s == source && v@ == digests,
        MempoolMsg::Batch(_) => false,
    }
}

/// Whether an entry asked for at `requested_at` is to be asked for again, by
/// broadcast, at time `now`.
pub open spec fn overdue(requested_at: u64, now: u64, wait_time: u64) -> bool {
    now >= requested_at && now - requested_at > wait_time
}

/// The cut-off of a garbage collection on the end of round `r`, if one runs:
/// none where `r` is not past the last cut-off, the first round where `r` is
/// below the depth, `r - depth` otherwise.
pub open spec fn gc_cutoff(latest: nat, depth: nat, r: nat) -> Option<nat> {
    if r <= latest {
        None
    } else if r < depth {
        Some(0)
    } else {
        Some((r - depth) as nat)
    }
}

/// The request sent, by unicast, for digests that consensus does not know.
pub struct SyncRequest<Id, Tx> {
    /// The node asked.
    pub to: Id,
    /// The request.
    pub msg: MempoolMsg<Id, Tx>,
    /// The digests that were not pending, in the order given, each once.
    pub missing: Vec<Digest>,
    /// The waiter of `missing[i]` is numbered `first_waiter + i`.
    pub first_waiter: u64,
}

/// The request broadcast for digests that are still missing: it goes to
/// `nodes` distinct nodes drawn at random among `among`.
pub struct SyncBroadcast<Id, Tx> {
    pub among: Vec<Id>,
    pub nodes: usize,
    pub msg: MempoolMsg<Id, Tx>,
}

/// Tracks the digests that consensus asked for and that the store lacks:
/// asks one node first, then the others after a delay, and gives them up
/// when their round falls out of the garbage-collection window.
///
/// Each pending digest has one waiter, which the caller runs: it watches the
/// store for the digest and reports back, unless it is cancelled.
pub struct Synchronizer<Id, R> {
    my_name: Id,
    gc_depth: R,
    latest_gc_round: R,
    round: R,
    pending: FnvHashMap<Digest, PendingEntry<R>>,
    wait_time: u64,
    all_ids: Vec<Id>,
    sync_retry_nodes: usize,
    next_waiter: u64,
    live: Ghost<Map<u64, Digest>>,
}

impl<Id: Copy, R: Round> Synchronizer<Id, R> {
    /// The pending digests and their entries.
    pub closed spec fn pending_map(&self) -> Map<Digest, PendingEntry<R>> {
        self.pending@
    }

    /// The live waiters (started, neither cancelled nor resolved), and the
    /// digest each one watches.
    pub closed spec fn waiters(&self) -> Map<u64, Digest> {
        self.live@
    }

    /// The latest round that consensus reported, as a value.
    pub closed spec fn round_value(&self) -> R {
        self.round
    }

    /// The latest round that consensus reported.
    pub closed spec fn current_round(&self) -> nat {
        self.round.rank()
    }

    /// The cut-off of the last garbage collection.
    pub closed spec fn gc_round(&self) -> nat {
        self.latest_gc_round.rank()
    }

    /// The garbage-collection depth.
    pub closed spec fn depth(&self) -> nat {
        self.gc_depth.rank()
    }

    /// This node's name.
    pub closed spec fn name(&self) -> Id {
        self.my_name
    }

    /// The delay before a request is broadcast.
    pub closed spec fn delay(&self) -> u64 {
        self.wait_time
    }

    /// The nodes that a broadcast may go to.
    pub closed spec fn peers(&self) -> Seq<Id> {
        self.all_ids@
    }

    /// How many nodes a broadcast goes to.
    pub closed spec fn fanout(&self) -> usize {
        self.sync_retry_nodes
    }

    /// The number of waiters numbered so far.
    pub closed spec fn issued(&self) -> u64 {
        self.next_waiter
    }

    /// The state is consistent: every pending entry is within the
    /// garbage-collection window, and the live waiters and the pending
    /// digests match one for one.
    pub closed spec fn wf(&self) -> bool {
        &&& self.latest_gc_round.rank() <= self.round.rank()
        &&& forall|d: Digest| #[trigger]
            self.pending@.contains_key(d) ==> self.pending@[d].round.rank()
                >= self.latest_gc_round.rank()
        &&& forall|d: Digest| #[trigger]
            self.pending@.contains_key(d) ==> self.live@.contains_key(self.pending@[d].waiter)
                && self.live@[self.pending@[d].waiter] == d
        &&& forall|w: u64| #[trigger]
            self.live@.contains_key(w) ==> self.pending@.contains_key(self.live@[w])
                && self.pending@[self.live@[w]].waiter == w && w < self.next_waiter
    }

    /// A synchronizer with nothing pending, at the first round.
    pub fn new(
        my_name: Id,
        gc_depth: R,
        wait_time: u64,
        all_ids: Vec<Id>,
        sync_retry_nodes: usize,
    ) -> (r: Self)
        ensures
            r.wf(),
            r.pending_map().dom().is_empty(),
            r.waiters().dom().is_empty(),
            r.current_round() == 0,
            r.gc_round() == 0,
            r.depth() == gc_depth.rank(),
            r.name() == my_name,
            r.delay() == wait_time,
            r.peers() == all_ids@,
            r.fanout() == sync_retry_nodes,
            r.issued() == 0,
    {
        Synchronizer {
            my_name,
            gc_depth,
            latest_gc_round: R::minimum(),
            round: R::minimum(),
            pending: map_new(),
            wait_time,
            all_ids,
            sync_retry_nodes,
            next_waiter: 0,
            live: Ghost(Map::empty()),
        }
    }

    /// The number of waiters numbered so far.
    pub fn waiters_issued(&self) -> (r: u64)
        ensures
            r == self.issued(),
    {
        self.next_waiter
    }

    /// Whether `digest` is pending.
    pub fn is_pending(&self, digest: &Digest) -> (r: bool)
        ensures
            r == self.pending_map().contains_key(*digest),
    {
        map_contains(&self.pending, digest)
    }

    /// Consensus does not know the batches of `digests` and names `source` as
    /// a node that has them. Each digest that is not pending becomes pending
    /// (once, however often it is listed), with a new waiter; one request for
    /// all of them goes to `source`.
    pub fn unknown_batch<Tx>(&mut self, source: Id, digests: &Vec<Digest>, now: u64) -> (r:
        SyncRequest<Id, Tx>)
        requires
            old(self).wf(),
            old(self).issued() + digests@.len() <= u64::MAX,
        ensures
            final(self).wf(),
            r.to == source,
            is_request(r.msg, old(self).name(), r.missing@),
            r.first_waiter == old(self).issued(),
            r.missing@.no_duplicates(),
            forall|d: Digest| #[trigger]
                r.missing@.contains(d) <==> digests@.contains(d) && !old(self).pending_map().contains_key(d),
            forall|d: Digest| #[trigger]
                final(self).pending_map().contains_key(d) <==> old(self).pending_map().contains_key(
                    d,
                ) || r.missing@.contains(d),
            forall|d: Digest| #[trigger]
                old(self).pending_map().contains_key(d) ==> final(self).pending_map()[d] == old(self).pending_map()[d],
            forall|i: int|
                0 <= i < r.missing@.len() ==> #[trigger] final(self).pending_map()[r.missing@[i]]
                    == (PendingEntry {
                    round: old(self).round_value(),
                    requested_at: now,
                    waiter: (old(self).issued() + i) as u64,
                }),
            final(self).issued() == old(self).issued() + r.missing@.len(),
            final(self).round_value() == old(self).round_value(),
            final(self).gc_round() == old(self).gc_round(),
            final(self).depth() == old(self).depth(),
            final(self).name() == old(self).name(),
            final(self).delay() == old(self).delay(),
            final(self).peers() == old(self).peers(),
            final(self).fanout() == old(self).fanout(),
    {
        let first = self.next_waiter;
        let mut missing: Vec<Digest> = Vec::new();
        let mut listed: Vec<Digest> = Vec::new();
        let mut i: usize = 0;
        while i < digests.len()
            invariant
                self.wf(),
                0 <= i <= digests@.len(),
                old(self).issued() + digests@.len() <= u64::MAX,
                first == old(self).next_waiter,
                self.next_waiter == first + missing@.len(),
                missing@.len() <= i,
                listed@ == missing@,
                missing@.no_duplicates(),
                self.round == old(self).round,
                self.latest_gc_round == old(self).latest_gc_round,
                self.gc_depth == old(self).gc_depth,
                self.my_name == old(self).my_name,
                self.wait_time == old(self).wait_time,
                self.all_ids == old(self).all_ids,
                self.sync_retry_nodes == old(self).sync_retry_nodes,
                forall|d: Digest| #[trigger]
                    missing@.contains(d) <==> digests@.take(i as int).contains(d) && !old(self).pending@.contains_key(d),
                forall|d: Digest| #[trigger]
                    self.pending@.contains_key(d) <==> old(self).pending@.contains_key(d)
                        || missing@.contains(d),
                forall|d: Digest| #[trigger]
                    old(self).pending@.contains_key(d) ==> self.pending@[d] == old(self).pending@[d],
                forall|k: int|
                    0 <= k < missing@.len() ==> #[trigger] self.pending@[missing@[k]]
                        == (PendingEntry {
                        round: old(self).round,
                        requested_at: now,
                        waiter: (first + k) as u64,
                    }),
            decreases digests@.len() - i,
        {
            let d = digests[i];
            proof {
                let t = digests@.take(i as int);
                assert(digests@.take(i + 1) =~= t.push(d));
                assert forall|x: Digest| #[trigger]
                    digests@.take(i + 1).contains(x) <==> t.contains(x) || x == d by {
                    if x == d {
                        assert(digests@.take(i + 1)[i as int] == d);
                    }
                    if t.contains(x) {
                        let j = choose|j: int| 0 <= j < t.len() && t[j] == x;
                        assert(digests@.take(i + 1)[j] == x);
                    }
                }
            }
            if !map_contains(&self.pending, &d) {
                let w = self.next_waiter;
                let entry = PendingEntry { round: self.round, requested_at: now, waiter: w };
                proof {
                    assert(!self.live@.contains_key(w));
                    assert(!missing@.contains(d));
                }
                map_insert(&mut self.pending, d, entry);
                self.live = Ghost(self.live@.insert(w, d));
                self.next_waiter = w + 1;
                let ghost before = missing@;
                missing.push(d);
                listed.push(d);
                proof {
                    assert(missing@ == before.push(d));
                    assert forall|x: Digest| #[trigger]
                        missing@.contains(x) <==> before.contains(x) || x == d by {
                        if x == d {
                            assert(missing@[before.len() as int] == d);
                        }
                        if before.contains(x) {
                            let j = choose|j: int| 0 <= j < before.len() && before[j] == x;
                            assert(missing@[j] == x);
                        }
                    }
                    assert forall|k: int| 0 <= k < missing@.len() implies #[trigger] self.pending@[missing@[k]]
                        == (PendingEntry {
                        round: old(self).round,
                        requested_at: now,
                        waiter: (first + k) as u64,
                    }) by {
                        if k < before.len() {
                            assert(missing@[k] == before[k]);
                            assert(before[k] != d);
                        }
                    }
                }
            }
            i = i + 1;
        }
        assert(digests@.take(digests@.len() as int) =~= digests@);
        SyncRequest {
            to: source,
            msg: MempoolMsg::RequestBatch(self.my_name, listed),
            missing,
            first_waiter: first,
        }
    }

    /// Consensus has completed round `r`. The current round becomes the
    /// later of the two. Where `r` is past the last cut-off, the cut-off
    /// moves to `r - depth` (the first round where `r` is below the depth),
    /// and every entry of a round before it is dropped: its waiter is
    /// cancelled and returned.
    pub fn end_round(&mut self, r: R) -> (cancelled: Vec<u64>)
        requires
            old(self).wf(),
        ensures
            final(self).wf(),
            final(self).current_round() == if r.rank() > old(self).current_round() {
                r.rank()
            } else {
                old(self).current_round()
            },
            forall|d: Digest| #[trigger]
                final(self).pending_map().contains_key(d) ==> final(self).pending_map()[d].round.rank()
                    >= r.rank() - old(self).depth(),
            match gc_cutoff(old(self).gc_round(), old(self).depth(), r.rank()) {
                None => final(self).pending_map() == old(self).pending_map() && final(self).waiters()
                    == old(self).waiters() && final(self).gc_round() == old(self).gc_round()
                    && cancelled@.len() == 0,
                Some(c) => final(self).gc_round() == c && (forall|d: Digest| #[trigger]
                    final(self).pending_map().contains_key(d) <==> old(self).pending_map().contains_key(d) && old(self).pending_map()[d].round.rank()
                        >= c),
            },
            forall|d: Digest| #[trigger]
                final(self).pending_map().contains_key(d) ==> final(self).pending_map()[d] == old(self).pending_map()[d],
            cancelled@.no_duplicates(),
            forall|w: u64| #[trigger]
                cancelled@.contains(w) <==> old(self).waiters().contains_key(w) && !final(self).waiters().contains_key(w),
            forall|w: u64| #[trigger]
                final(self).waiters().contains_key(w) ==> old(self).waiters().contains_key(w)
                    && final(self).waiters()[w] == old(self).waiters()[w],
            final(self).issued() == old(self).issued(),
            final(self).depth() == old(self).depth(),
            final(self).name() == old(self).name(),
            final(self).delay() == old(self).delay(),
            final(self).peers() == old(self).peers(),
            final(self).fanout() == old(self).fanout(),
    {
        if r.number() > self.round.number() {
            self.round = r;
        }
        let mut cancelled: Vec<u64> = Vec::new();
        if r.number() <= self.latest_gc_round.number() {
            proof {
                assert forall|d: Digest| #[trigger]
                    self.pending_map().contains_key(d) implies self.pending_map()[d].round.rank()
                    >= r.rank() - self.depth() by {
                    assert(self.pending@.contains_key(d));
                }
            }
            return cancelled;
        }
        if r.number() < self.gc_depth.number() {
            self.latest_gc_round = R::minimum();
            return cancelled;
        }
        let cutoff = r.minus(&self.gc_depth);
        self.latest_gc_round = cutoff;
        let ghost p0 = self.pending@;
        let ghost l0 = self.live@;
        let ghost round1 = self.round;
        let keys = map_keys(&self.pending);
        proof {
            assert forall|j: int| 0 <= j < keys@.len() implies #[trigger] self.pending@.contains_key(
                keys@[j],
            ) by {
                assert(keys@.contains(keys@[j]));
            }
        }
        let mut i: usize = 0;
        while i < keys.len()
            invariant
                0 <= i <= keys@.len(),
                keys@.no_duplicates(),
                forall|k: Digest| #[trigger] keys@.contains(k) <==> p0.contains_key(k),
                self.round == round1,
                old(self).round.rank() <= round1.rank(),
                r.rank() <= round1.rank(),
                self.latest_gc_round == cutoff,
                cutoff.rank() == r.rank() - self.gc_depth.rank(),
                cutoff.rank() <= self.round.rank(),
                self.gc_depth == old(self).gc_depth,
                self.my_name == old(self).my_name,
                self.wait_time == old(self).wait_time,
                self.all_ids == old(self).all_ids,
                self.sync_retry_nodes == old(self).sync_retry_nodes,
                self.next_waiter == old(self).next_waiter,
                p0 == old(self).pending@,
                l0 == old(self).live@,
                forall|d: Digest| #[trigger]
                    p0.contains_key(d) ==> l0.contains_key(p0[d].waiter) && l0[p0[d].waiter] == d,
                forall|w: u64| #[trigger]
                    l0.contains_key(w) ==> p0.contains_key(l0[w]) && p0[l0[w]].waiter == w
                        && w < self.next_waiter,
                forall|j: int| i <= j < keys@.len() ==> #[trigger] self.pending@.contains_key(keys@[j]),
                forall|d: Digest| #[trigger]
                    self.pending@.contains_key(d) ==> p0.contains_key(d) && self.pending@[d]
                        == p0[d],
                forall|d: Digest| #[trigger]
                    p0.contains_key(d) && !self.pending@.contains_key(d) ==> p0[d].round.rank()
                        < cutoff.rank(),
                forall|d: Digest|
                    p0.contains_key(d) && p0[d].round.rank() < cutoff.rank() && !(
                    #[trigger] keys@.take(i as int).contains(d)) ==> self.pending@.contains_key(d),
                forall|d: Digest| #[trigger]
                    keys@.take(i as int).contains(d) && p0[d].round.rank() < cutoff.rank()
                        ==> !self.pending@.contains_key(d),
                forall|w: u64| #[trigger]
                    self.live@.contains_key(w) <==> l0.contains_key(w) && self.pending@.contains_key(
                        l0[w],
                    ),
                forall|w: u64| #[trigger] self.live@.contains_key(w) ==> self.live@[w] == l0[w],
                cancelled@.no_duplicates(),
                forall|w: u64| #[trigger]
                    cancelled@.contains(w) <==> l0.contains_key(w) && !self.live@.contains_key(w),
            decreases keys@.len() - i,
        {
            let k = keys[i];
            proof {
                let t = keys@.take(i as int);
                assert(keys@.take(i + 1) =~= t.push(k));
                assert forall|x: Digest| #[trigger]
                    keys@.take(i + 1).contains(x) <==> t.contains(x) || x == k by {
                    if x == k {
                        assert(keys@.take(i + 1)[i as int] == k);
                    }
                    if t.contains(x) {
                        let j = choose|j: int| 0 <= j < t.len() && t[j] == x;
                        assert(keys@.take(i + 1)[j] == x);
                    }
                }
                assert(!t.contains(k)) by {
                    if t.contains(k) {
                        let j = choose|j: int| 0 <= j < t.len() && t[j] == k;
                        assert(keys@[j] == keys@[i as int]);
                    }
                }
            }
            let e = map_get(&self.pending, &k).unwrap();
            if e.round.number() < cutoff.number() {
                let _ = map_remove(&mut self.pending, &k);
                let ghost before = cancelled@;
                proof {
                    assert(l0[e.waiter] == k);
                    assert(self.live@.contains_key(e.waiter));
                    assert(!before.contains(e.waiter));
                }
                self.live = Ghost(self.live@.remove(e.waiter));
                cancelled.push(e.waiter);
                proof {
                    assert forall|x: u64| #[trigger]
                        cancelled@.contains(x) <==> before.contains(x) || x == e.waiter by {
                        if x == e.waiter {
                            assert(cancelled@[before.len() as int] == x);
                        }
                        if before.contains(x) {
                            let j = choose|j: int| 0 <= j < before.len() && before[j] == x;
                            assert(cancelled@[j] == x);
                        }
                    }
                }
            }
            i = i + 1;
        }
        proof {
            assert(keys@.take(keys@.len() as int) =~= keys@);
            assert forall|d: Digest| #[trigger]
                self.pending@.contains_key(d) implies self.pending@[d].round.rank()
                >= cutoff.rank() by {
                if p0[d].round.rank() < cutoff.rank() {
                    assert(keys@.contains(d));
                    assert(keys@.take(keys@.len() as int).contains(d));
                }
            }
            assert forall|d: Digest| #[trigger]
                self.pending@.contains_key(d) implies self.live@.contains_key(
                self.pending@[d].waiter,
            ) && self.live@[self.pending@[d].waiter] == d by {
                assert(p0.contains_key(d));
                let w = p0[d].waiter;
                assert(self.pending@[d] == p0[d]);
                assert(l0.contains_key(w) && l0[w] == d);
                assert(self.live@.contains_key(w));
                assert(self.live@[w] == l0[w]);
            }
            assert forall|w: u64| #[trigger]
                self.live@.contains_key(w) implies self.pending@.contains_key(self.live@[w])
                && self.pending@[self.live@[w]].waiter == w && w < self.next_waiter by {
                assert(l0.contains_key(w));
            }
            assert forall|d: Digest| #[trigger]
                self.pending_map().contains_key(d) implies self.pending_map()[d].round.rank()
                >= r.rank() - self.depth() by {
                assert(self.pending@.contains_key(d));
            }
            assert forall|d: Digest| #[trigger]
                self.pending_map().contains_key(d) <==> old(self).pending_map().contains_key(d)
                    && old(self).pending_map()[d].round.rank() >= cutoff.rank() by {
                if old(self).pending_map().contains_key(d) && old(
                    self,
                ).pending_map()[d].round.rank() >= cutoff.rank() {
                    assert(p0.contains_key(d));
                    assert(keys@.contains(d));
                    let j = choose|j: int| 0 <= j < keys@.len() && keys@[j] == d;
                }
            }
        }
        cancelled
    }

    /// The waiter numbered `waiter` saw `digest` in the store. Where it is the
    /// live waiter of `digest`, the digest stops being pending; a report of
    /// any other waiter (one already cancelled) changes nothing.
    pub fn waiter_resolved(&mut self, waiter: u64, digest: Digest) -> (removed: bool)
        requires
            old(self).wf(),
        ensures
            final(self).wf(),
            removed == (old(self).pending_map().contains_key(digest)
                && old(self).pending_map()[digest].waiter == waiter),
            removed ==> final(self).pending_map() == old(self).pending_map().remove(digest)
                && final(self).waiters() == old(self).waiters().remove(waiter),
            !removed ==> final(self).pending_map() == old(self).pending_map()
                && final(self).waiters() == old(self).waiters(),
            final(self).round_value() == old(self).round_value(),
            final(self).gc_round() == old(self).gc_round(),
            final(self).issued() == old(self).issued(),
            final(self).depth() == old(self).depth(),
            final(self).name() == old(self).name(),
            final(self).delay() == old(self).delay(),
            final(self).peers() == old(self).peers(),
            final(self).fanout() == old(self).fanout(),
    {
        match map_get(&self.pending, &digest) {
            Some(e) => {
                if e.waiter == waiter {
                    let _ = map_remove(&mut self.pending, &digest);
                    self.live = Ghost(self.live@.remove(waiter));
                    true
                } else {
                    false
                }
            },
            None => false,
        }
    }

    /// The retry timer fired at time `now`: every pending digest first asked
    /// for more than the delay ago is asked for again, in one request that
    /// goes to `fanout` nodes drawn among the peers. Nothing is sent where no
    /// digest is overdue. The entries keep their time, so that they are
    /// asked for again at each tick until they arrive or are given up. The
    /// peers are the identifiers given at construction, this node's own
    /// included where it is among them.
    pub fn retry<Tx>(&self, now: u64) -> (r: Option<SyncBroadcast<Id, Tx>>)
        requires
            self.wf(),
        ensures
            r is None <==> (forall|d: Digest| #[trigger]
                self.pending_map().contains_key(d) ==> !overdue(
                    self.pending_map()[d].requested_at,
                    now,
                    self.delay(),
                )),
            r matches Some(b) ==> (b.among@ == self.peers() && b.nodes == self.fanout() && exists|
                v: Seq<Digest>,
            |
                is_request(b.msg, self.name(), v) && v.no_duplicates() && (forall|d: Digest| #[trigger]
                    v.contains(d) <==> self.pending_map().contains_key(d) && overdue(
                        self.pending_map()[d].requested_at,
                        now,
                        self.delay(),
                    ))),
    {
        let keys = map_keys(&self.pending);
        let mut retry: Vec<Digest> = Vec::new();
        let mut i: usize = 0;
        while i < keys.len()
            invariant
                0 <= i <= keys@.len(),
                keys@.no_duplicates(),
                forall|k: Digest| #[trigger] keys@.contains(k) <==> self.pending@.contains_key(k),
                retry@.no_duplicates(),
                forall|d: Digest| #[trigger]
                    retry@.contains(d) <==> keys@.take(i as int).contains(d) && overdue(
                        self.pending@[d].requested_at,
                        now,
                        self.wait_time,
                    ),
            decreases keys@.len() - i,
        {
            let k = keys[i];
            proof {
                let t = keys@.take(i as int);
                assert(keys@.take(i + 1) =~= t.push(k));
                assert forall|x: Digest| #[trigger]
                    keys@.take(i + 1).contains(x) <==> t.contains(x) || x == k by {
                    if x == k {
                        assert(keys@.take(i + 1)[i as int] == k);
                    }
                    if t.contains(x) {
                        let j = choose|j: int| 0 <= j < t.len() && t[j] == x;
                        assert(keys@.take(i + 1)[j] == x);
                    }
                }
                assert(!t.contains(k)) by {
                    if t.contains(k) {
                        let j = choose|j: int| 0 <= j < t.len() && t[j] == k;
                        assert(keys@[j] == keys@[i as int]);
                    }
                }
            }
            assert(keys@.contains(keys@[i as int]));
            let e = map_get(&self.pending, &k).unwrap();
            if now >= e.requested_at && now - e.requested_at > self.wait_time {
                let ghost before = retry@;
                assert(!before.contains(k));
                retry.push(k);
                proof {
                    assert forall|x: Digest| #[trigger]
                        retry@.contains(x) <==> before.contains(x) || x == k by {
                        if x == k {
                            assert(retry@[before.len() as int] == x);
                        }
                        if before.contains(x) {
                            let j = choose|j: int| 0 <= j < before.len() && before[j] == x;
                            assert(retry@[j] == x);
                        }
                    }
                }
            }
            i = i + 1;
        }
        proof {
            assert(keys@.take(keys@.len() as int) =~= keys@);
        }
        if retry.len() == 0 {
            proof {
                assert forall|d: Digest| #[trigger]
                    self.pending@.contains_key(d) implies !overdue(
                    self.pending@[d].requested_at,
                    now,
                    self.wait_time,
                ) by {
                    if overdue(self.pending@[d].requested_at, now, self.wait_time) {
                        assert(keys@.contains(d));
                        assert(retry@.contains(d));
                    }
                }
                assert(forall|d: Digest| #[trigger]
                    self.pending_map().contains_key(d) ==> !overdue(
                        self.pending_map()[d].requested_at,
                        now,
                        self.delay(),
                    ));
            }
            None
        } else {
            let ghost v = retry@;
            proof {
                let d = retry@[0];
                assert(retry@.contains(d));
                assert(keys@.contains(d));
                assert(self.pending_map().contains_key(d) && overdue(
                    self.pending_map()[d].requested_at,
                    now,
                    self.delay(),
                ));
            }
            let msg = MempoolMsg::RequestBatch(self.my_name, retry);
            assert(is_request(msg, self.my_name, v));
            Some(SyncBroadcast { among: copy_vec(&self.all_ids), nodes: self.sync_retry_nodes, msg })
        }
    }
}

/// Every pending digest has exactly one live waiter.
pub proof fn pending_digest_has_one_waiter<Id: Copy, R: Round>(
    s: &Synchronizer<Id, R>,
    d: Digest,
)
    requires
        s.wf(),
        s.pending_map().contains_key(d),
    ensures
        s.waiters().contains_key(s.pending_map()[d].waiter),
        s.waiters()[s.pending_map()[d].waiter] == d,
        forall|w: u64| #[trigger]
            s.waiters().contains_key(w) && s.waiters()[w] == d ==> w == s.pending_map()[d].waiter,
{
}

} // verus!
