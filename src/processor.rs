use crate::codec::{batch_bytes, encode_batch, payload_bytes};
use crate::msg::{digest_key, Batch, Digest};
use vstd::prelude::*;

verus! {

/// What the processor does with one batch: it writes `value` under `key` in
/// the store and, once that is done, forwards `digest` to consensus.
pub struct Processed {
    pub key: Vec<u8>,
    pub value: Vec<u8>,
    pub digest: Digest,
}

/// Hashes and stores each batch that the batcher seals, and forwards its
/// digest to consensus. The caller runs the store and the queues.
pub struct Processor;

impl Processor {
    /// The wire form of `batch` is hashed with `hash`; it is stored under
    /// the digest, which is forwarded.
    pub fn process<F: Fn(&Vec<u8>) -> Digest>(batch: &Batch<Vec<u8>>, hash: F) -> (r: Processed)
        requires
            forall|b: &Vec<u8>| hash.requires((b,)),
        ensures
            r.value@ == batch_bytes(payload_bytes(*batch)),
            hash.ensures((&r.value,), r.digest),
            r.key@ == r.digest@,
    {
        let value = encode_batch(batch);
        let digest = hash(&value);
        let key = digest_key(&digest);
        Processed { key, value, digest }
    }
}

} // verus!
