use crate::traits::{Sealer, Transaction};
use vstd::prelude::*;

verus! {

/// `n`, or `usize::MAX` where `n` is above it.
pub open spec fn capped(n: int) -> nat {
    if n > usize::MAX {
        usize::MAX as nat
    } else {
        n as nat
    }
}

/// Triggers once the sizes recorded since the last seal add up to at least
/// `max_size`.
pub struct Sized<Tx> {
    max_size: usize,
    current_size: usize,
    txs: Vec<Tx>,
}

impl<Tx> Sized<Tx> {
    /// The threshold.
    pub closed spec fn limit(&self) -> nat {
        self.max_size as nat
    }

    /// The sizes recorded since the last seal, added up (capped at
    /// `usize::MAX`, which is never below the threshold).
    pub closed spec fn size(&self) -> nat {
        self.current_size as nat
    }

    /// The transactions held, oldest first.
    pub closed spec fn contents(&self) -> Seq<Tx> {
        self.txs@
    }

    /// A sealer that holds nothing.
    pub fn new(max_size: usize) -> (r: Self)
        ensures
            r.contents().len() == 0,
            r.limit() == max_size,
            r.size() == 0,
    {
        Sized { max_size, current_size: 0, txs: Vec::new() }
    }

    /// The threshold.
    pub fn max_size(&self) -> (r: usize)
        ensures
            r == self.limit(),
    {
        self.max_size
    }

    /// The sizes recorded since the last seal.
    pub fn current_size(&self) -> (r: usize)
        ensures
            r == self.size(),
    {
        self.current_size
    }
}

impl<Tx: Transaction> Sealer<Tx> for Sized<Tx> {
    open spec fn held(&self) -> Seq<Tx> {
        self.contents()
    }

    open spec fn wf(&self) -> bool {
        true
    }

    open spec fn fires(&self, now: u64) -> bool {
        self.size() >= self.limit()
    }

    open spec fn sealable(&self) -> bool {
        true
    }

    open spec fn deadline(&self) -> Option<u64> {
        None
    }

    fn update(&mut self, tx: Tx, tx_size: usize)
        ensures
            final(self).limit() == old(self).limit(),
            final(self).size() == capped(old(self).size() + tx_size),
    {
        self.current_size = self.current_size.saturating_add(tx_size);
        self.txs.push(tx);
    }

    fn seal(&mut self, now: u64) -> (r: Vec<Tx>)
        ensures
            final(self).limit() == old(self).limit(),
            final(self).size() == 0,
    {
        self.current_size = 0;
        let mut out: Vec<Tx> = Vec::new();
        std::mem::swap(&mut out, &mut self.txs);
        out
    }

    fn poll(&mut self, now: u64) -> (r: Option<Vec<Tx>>)
        ensures
            final(self).limit() == old(self).limit(),
            r is Some ==> final(self).size() == 0 && old(self).size() >= old(self).limit(),
            r is None ==> final(self).size() == old(self).size(),
    {
        if self.current_size >= self.max_size {
            Some(self.seal(now))
        } else {
            None
        }
    }

    fn len(&self) -> (r: usize) {
        self.txs.len()
    }

    fn next_deadline(&self) -> (r: Option<u64>) {
        None
    }
}

/// Sealing twice in a row: the second seal hands out nothing. `first` and
/// `second` are what the two seals return, `s1` and `s2` the sealer after
/// each.
pub proof fn sized_seal_twice<Tx: Transaction>(
    s0: Sized<Tx>,
    first: Seq<Tx>,
    s1: Sized<Tx>,
    second: Seq<Tx>,
    s2: Sized<Tx>,
)
    requires
        first == s0.held() && s1.held().len() == 0 && s1.size() == 0,
        second == s1.held() && s2.held().len() == 0 && s2.size() == 0,
    ensures
        second.len() == 0,
        first == s0.contents(),
{
}

/// One update whose size reaches the threshold makes a sealer that held
/// nothing trigger at once, whatever the time.
pub proof fn sized_fires_on_large_update<Tx: Transaction>(
    s0: Sized<Tx>,
    tx: Tx,
    tx_size: usize,
    s1: Sized<Tx>,
    now: u64,
)
    requires
        s0.size() == 0,
        tx_size >= s0.limit(),
        s1.limit() == s0.limit(),
        s1.size() == capped(s0.size() + tx_size),
        s1.held() == s0.held().push(tx),
    ensures
        s1.fires(now),
{
}

} // verus!
