use crate::codec::{decode_batch, parse_batch, payload_bytes};
use crate::msg::MempoolMsg;
use vstd::prelude::*;

verus! {

/// `m` is a batch message whose transactions are `txs`.
pub open spec fn carries_batch<Id>(m: MempoolMsg<Id, Vec<u8>>, txs: Seq<Seq<u8>>) -> bool {
    match m {
        MempoolMsg::Batch(b) => payload_bytes(b) == txs,
        MempoolMsg::RequestBatch(_, _) => false,
    }
}

/// Answers the requests of other mempools from the local store. The caller
/// reads the store for each requested digest and sends what `reply` returns.
pub struct Helper;

impl Helper {
    /// The answer to `source` for one requested digest, given what the store
    /// holds under it: the stored batch where there is one, nothing where the
    /// digest is unknown (the requester asks again or elsewhere) or the bytes
    /// are not the wire form of a batch.
    pub fn reply<Id>(source: Id, stored: Option<Vec<u8>>) -> (r: Option<(Id, MempoolMsg<Id, Vec<u8>>)>)
        ensures
            match stored {
                None => r is None,
                Some(bytes) => match parse_batch(bytes@) {
                    None => r is None,
                    Some(txs) => (r matches Some(p) && p.0 == source && carries_batch(p.1, txs)),
                },
            },
    {
        match stored {
            None => None,
            Some(bytes) => match decode_batch(&bytes) {
                None => None,
                Some(b) => Some((source, MempoolMsg::Batch(b))),
            },
        }
    }
}

} // verus!
