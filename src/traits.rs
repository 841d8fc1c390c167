use vstd::prelude::*;

verus! {

/// A transaction carried by the mempool. The mempool never looks inside one.
pub trait Transaction {

}

impl<T> Transaction for T {

}

/// A consensus round: totally ordered, with a first round, and with
/// subtraction of a garbage-collection depth.
pub trait Round: Copy + Sized {
    /// The position of the round in the order of rounds.
    spec fn rank(&self) -> nat;

    /// The first round.
    fn minimum() -> (r: Self)
        ensures
            r.rank() == 0,
    ;

    /// The position of the round, as a number.
    fn number(&self) -> (r: u64)
        ensures
            r == self.rank(),
    ;

    /// `self - depth`, for a depth that is not above `self`.
    fn minus(&self, depth: &Self) -> (r: Self)
        requires
            depth.rank() <= self.rank(),
        ensures
            r.rank() == self.rank() - depth.rank(),
    ;
}

impl Round for u8 {
    open spec fn rank(&self) -> nat {
        *self as nat
    }

    fn minimum() -> (r: Self) {
        0
    }

    fn number(&self) -> (r: u64) {
        *self as u64
    }

    fn minus(&self, depth: &Self) -> (r: Self) {
        *self - *depth
    }
}

impl Round for u16 {
    open spec fn rank(&self) -> nat {
        *self as nat
    }

    fn minimum() -> (r: Self) {
        0
    }

    fn number(&self) -> (r: u64) {
        *self as u64
    }

    fn minus(&self, depth: &Self) -> (r: Self) {
        *self - *depth
    }
}

impl Round for u32 {
    open spec fn rank(&self) -> nat {
        *self as nat
    }

    fn minimum() -> (r: Self) {
        0
    }

    fn number(&self) -> (r: u64) {
        *self as u64
    }

    fn minus(&self, depth: &Self) -> (r: Self) {
        *self - *depth
    }
}

impl Round for u64 {
    open spec fn rank(&self) -> nat {
        *self as nat
    }

    fn minimum() -> (r: Self) {
        0
    }

    fn number(&self) -> (r: u64) {
        *self
    }

    fn minus(&self, depth: &Self) -> (r: Self) {
        *self - *depth
    }
}

/// A sealing policy: it holds transactions until its policy triggers, and
/// then hands all of them out at once, in the order in which they came.
///
/// Time is a number of milliseconds on a clock that the caller reads.
pub trait Sealer<Tx>: Sized {
    /// The transactions held, oldest first.
    spec fn held(&self) -> Seq<Tx>;

    /// The internal accounting of the sealer agrees with what it holds.
    spec fn wf(&self) -> bool;

    /// Whether the policy triggers when the sealer is polled at time `now`.
    spec fn fires(&self, now: u64) -> bool;

    /// Whether `seal` may be called on the sealer.
    spec fn sealable(&self) -> bool;

    /// The time from which the policy triggers whatever else happens, if any.
    spec fn deadline(&self) -> Option<u64>;

    /// Appends a transaction, recording its size.
    fn update(&mut self, tx: Tx, tx_size: usize)
        requires
            old(self).wf(),
            old(self).held().len() < usize::MAX,
        ensures
            final(self).wf(),
            final(self).held() == old(self).held().push(tx),
            final(self).sealable() == old(self).sealable(),
    ;

    /// Hands out every transaction held and resets the accounting as of `now`.
    fn seal(&mut self, now: u64) -> (r: Vec<Tx>)
        requires
            old(self).wf(),
            old(self).sealable(),
        ensures
            final(self).wf(),
            r@ == old(self).held(),
            final(self).held().len() == 0,
            final(self).sealable(),
    ;

    /// Completion: when the policy triggers at `now`, hands out every
    /// transaction held and resets; otherwise hands out nothing.
    fn poll(&mut self, now: u64) -> (r: Option<Vec<Tx>>)
        requires
            old(self).wf(),
        ensures
            final(self).wf(),
            final(self).sealable() == old(self).sealable(),
            old(self).fires(now) ==> (r matches Some(v) && v@ == old(self).held()
                && final(self).held().len() == 0),
            !old(self).fires(now) ==> r is None && final(self).held() == old(self).held(),
    ;

    /// How many transactions are held.
    fn len(&self) -> (r: usize)
        requires
            self.wf(),
        ensures
            r == self.held().len(),
    ;

    /// The time from which the policy triggers whatever else happens, if any.
    fn next_deadline(&self) -> (r: Option<u64>)
        requires
            self.wf(),
        ensures
            r == self.deadline(),
            r matches Some(d) ==> (forall|now: u64| now >= d ==> #[trigger] self.fires(now)),
    ;
}

} // verus!
