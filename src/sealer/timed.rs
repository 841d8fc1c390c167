use crate::traits::{Sealer, Transaction};
use vstd::prelude::*;

verus! {

/// `now + timeout`, or `u64::MAX` where that is above it.
pub open spec fn later(now: u64, timeout: u64) -> u64 {
    if now + timeout > u64::MAX {
        u64::MAX
    } else {
        (now + timeout) as u64
    }
}

/// Triggers once `timeout` milliseconds have passed since the last seal (or
/// since it was made), whatever it holds.
pub struct Timed<Tx> {
    timeout: u64,
    deadline: u64,
    txs: Vec<Tx>,
}

impl<Tx> Timed<Tx> {
    /// The time-out, in milliseconds.
    pub closed spec fn period(&self) -> u64 {
        self.timeout
    }

    /// The time at which the policy triggers.
    pub closed spec fn due_at(&self) -> u64 {
        self.deadline
    }

    /// The transactions held, oldest first.
    pub closed spec fn contents(&self) -> Seq<Tx> {
        self.txs@
    }

    /// A sealer that holds nothing, made at time `now`.
    pub fn new(timeout: u64, now: u64) -> (r: Self)
        ensures
            r.contents().len() == 0,
            r.period() == timeout,
            r.due_at() == later(now, timeout),
    {
        Timed { timeout, deadline: now.saturating_add(timeout), txs: Vec::new() }
    }

    /// Starts the time-out afresh at `now`, keeping what is held.
    pub fn reset_timer(&mut self, now: u64)
        ensures
            final(self).contents() == old(self).contents(),
            final(self).period() == old(self).period(),
            final(self).due_at() == later(now, old(self).period()),
    {
        self.deadline = now.saturating_add(self.timeout);
    }

    /// The time at which the policy triggers.
    pub fn timeout_deadline(&self) -> (r: u64)
        ensures
            r == self.due_at(),
    {
        self.deadline
    }

    /// The time-out, in milliseconds.
    pub fn timeout(&self) -> (r: u64)
        ensures
            r == self.period(),
    {
        self.timeout
    }
}

impl<Tx: Transaction> Sealer<Tx> for Timed<Tx> {
    open spec fn held(&self) -> Seq<Tx> {
        self.contents()
    }

    open spec fn wf(&self) -> bool {
        true
    }

    open spec fn fires(&self, now: u64) -> bool {
        now >= self.due_at()
    }

    open spec fn sealable(&self) -> bool {
        true
    }

    open spec fn deadline(&self) -> Option<u64> {
        Some(self.due_at())
    }

    fn update(&mut self, tx: Tx, tx_size: usize)
        ensures
            final(self).period() == old(self).period(),
            final(self).due_at() == old(self).due_at(),
    {
        self.txs.push(tx);
    }

    fn seal(&mut self, now: u64) -> (r: Vec<Tx>)
        ensures
            final(self).period() == old(self).period(),
            final(self).due_at() == later(now, old(self).period()),
    {
        self.reset_timer(now);
        let mut out: Vec<Tx> = Vec::new();
        std::mem::swap(&mut out, &mut self.txs);
        out
    }

    fn poll(&mut self, now: u64) -> (r: Option<Vec<Tx>>)
        ensures
            final(self).period() == old(self).period(),
            r is Some ==> final(self).due_at() == later(now, old(self).period()),
            r is None ==> final(self).due_at() == old(self).due_at(),
    {
        if now >= self.deadline {
            Some(self.seal(now))
        } else {
            None
        }
    }

    fn len(&self) -> (r: usize) {
        self.txs.len()
    }

    fn next_deadline(&self) -> (r: Option<u64>) {
        Some(self.deadline)
    }
}

/// A timed sealer that got no update since it was made (or sealed) at
/// `start` triggers once the time-out has passed, with an empty batch.
pub proof fn timed_fires_empty<Tx: Transaction>(s: Timed<Tx>, start: u64, now: u64)
    requires
        s.contents().len() == 0,
        s.due_at() == later(start, s.period()),
        now >= start + s.period(),
    ensures
        s.fires(now),
        s.held().len() == 0,
{
}

} // verus!
