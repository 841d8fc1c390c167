use crate::msg::Batch;
use crate::traits::{Sealer, Transaction};
use vstd::prelude::*;

verus! {

/// Feeds transactions to a sealer, in the order in which they arrive, and
/// hands out a batch each time the sealer's policy triggers.
///
/// The caller owns the queues and the clock: it hands each transaction to
/// `update`, calls `poll` after each event and when the deadline comes, and
/// forwards what `poll` returns.
pub struct Batcher<Tx, S> {
    sealer: S,
    received: Ghost<Seq<Tx>>,
    emitted: Ghost<Seq<Seq<Tx>>>,
}

impl<Tx: Transaction, S: Sealer<Tx>> Batcher<Tx, S> {
    /// Every transaction handed in, after those that the sealer held when the
    /// batcher was made.
    pub closed spec fn received(&self) -> Seq<Tx> {
        self.received@
    }

    /// The payloads of the batches handed out, in order.
    pub closed spec fn emitted(&self) -> Seq<Seq<Tx>> {
        self.emitted@
    }

    /// What the sealer holds.
    pub closed spec fn pending(&self) -> Seq<Tx> {
        self.sealer.held()
    }

    /// The sealer.
    pub closed spec fn policy(&self) -> S {
        self.sealer
    }

    /// The batches handed out, one after the other, and then what the sealer
    /// holds, are exactly the transactions received.
    pub closed spec fn wf(&self) -> bool {
        &&& self.sealer.wf()
        &&& self.emitted@.flatten() + self.sealer.held() == self.received@
    }

    /// A batcher around `sealer`.
    pub fn new(sealer: S) -> (r: Self)
        requires
            sealer.wf(),
        ensures
            r.wf(),
            r.policy() == sealer,
            r.received() == sealer.held(),
            r.emitted().len() == 0,
    {
        let r = Batcher { sealer, received: Ghost(sealer.held()), emitted: Ghost(Seq::empty()) };
        assert(r.emitted@.flatten() + r.sealer.held() =~= r.received@);
        r
    }

    /// A transaction arrives.
    pub fn update(&mut self, tx: Tx, tx_size: usize)
        requires
            old(self).wf(),
            old(self).pending().len() < usize::MAX,
        ensures
            final(self).wf(),
            final(self).received() == old(self).received().push(tx),
            final(self).emitted() == old(self).emitted(),
            final(self).pending() == old(self).pending().push(tx),
    {
        self.sealer.update(tx, tx_size);
        self.received = Ghost(self.received@.push(tx));
        assert(self.emitted@.flatten() + self.sealer.held() =~= self.received@);
    }

    /// Asks the sealer at time `now`; when its policy triggers, the batch of
    /// everything it held is handed out.
    pub fn poll(&mut self, now: u64) -> (r: Option<Batch<Tx>>)
        requires
            old(self).wf(),
        ensures
            final(self).wf(),
            final(self).received() == old(self).received(),
            old(self).policy().fires(now) ==> (r matches Some(b) && b.payload@
                == old(self).pending() && final(self).emitted() == old(self).emitted().push(
                b.payload@,
            ) && final(self).pending().len() == 0),
            !old(self).policy().fires(now) ==> (r is None && final(self).emitted()
                == old(self).emitted() && final(self).pending() == old(self).pending()),
    {
        match self.sealer.poll(now) {
            Some(txs) => {
                proof {
                    let e = self.emitted@;
                    let p = txs@;
                    e.lemma_flatten_push(p);
                    assert(e.push(p).flatten() + self.sealer.held() =~= e.flatten() + p);
                }
                self.emitted = Ghost(self.emitted@.push(txs@));
                Some(Batch::from(txs))
            },
            None => None,
        }
    }

    /// How many transactions the sealer holds.
    pub fn pending_len(&self) -> (r: usize)
        requires
            self.wf(),
        ensures
            r == self.pending().len(),
    {
        self.sealer.len()
    }

    /// The time at which the sealer's policy triggers whatever else happens,
    /// if any: the caller polls again then at the latest.
    pub fn next_deadline(&self) -> (r: Option<u64>)
        requires
            self.wf(),
        ensures
            r == self.policy().deadline(),
    {
        self.sealer.next_deadline()
    }
}

/// The batcher loses, duplicates and reorders no transaction: the payloads
/// of the batches it handed out, one after the other, are the transactions it
/// received, up to those the sealer still holds.
pub proof fn batcher_keeps_order<Tx: Transaction, S: Sealer<Tx>>(b: &Batcher<Tx, S>)
    requires
        b.wf(),
    ensures
        b.emitted().flatten() == b.received().take(b.emitted().flatten().len() as int),
        b.received() == b.emitted().flatten() + b.pending(),
{
    assert(b.emitted().flatten() =~= b.received().take(b.emitted().flatten().len() as int));
}

} // verus!
