use vstd::prelude::*;

verus! {

/// The 32-byte digest of a batch: the key under which the batch is stored.
pub type Digest = [u8; 32];

/// An ordered sequence of transactions, sealed as a unit.
pub struct Batch<Tx> {
    pub payload: Vec<Tx>,
}

impl<Tx> From<Vec<Tx>> for Batch<Tx> {
    fn from(tx_batch: Vec<Tx>) -> (r: Self)
        ensures
            r.payload@ == tx_batch@,
    {
        Batch { payload: tx_batch }
    }
}

impl<Tx> vstd::std_specs::convert::FromSpecImpl<Vec<Tx>> for Batch<Tx> {
    open spec fn obeys_from_spec() -> bool {
        false
    }

    open spec fn from_spec(v: Vec<Tx>) -> Self {
        Batch { payload: v }
    }
}

/// A message between mempools.
pub enum MempoolMsg<Id, Tx> {
    /// Asks that the batches of these digests be sent to the given node.
    RequestBatch(Id, Vec<Digest>),
    /// A batch, sent unasked or in answer to a request.
    Batch(Batch<Tx>),
}

/// A message from consensus to the mempool.
pub enum ConsensusMempoolMsg<Id, Round> {
    /// Consensus has completed this round.
    End(Round),
    /// Consensus saw these digests and has no batch for them; the given node
    /// is asked first.
    UnknownBatch(Id, Vec<Digest>),
}

/// The store key of a digest: its 32 bytes.
pub fn digest_key(d: &Digest) -> (r: Vec<u8>)
    ensures
        r@ == d@,
{
    let mut r: Vec<u8> = Vec::new();
    let mut i: usize = 0;
    while i < 32
        invariant
            0 <= i <= 32,
            d@.len() == 32,
            r@ == d@.take(i as int),
        decreases 32 - i,
    {
        r.push(d[i]);
        assert(r@ =~= d@.take(i + 1));
        i = i + 1;
    }
    assert(d@.take(32) =~= d@);
    r
}

} // verus!
