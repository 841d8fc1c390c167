use crate::msg::{Batch, Digest, MempoolMsg};
use vstd::prelude::*;

verus! {

/// Where a message from another mempool goes.
pub enum Route<Id, Tx> {
    /// To the processor, to be stored.
    Processor(Batch<Tx>),
    /// To the helper, to be answered.
    Helper(Id, Vec<Digest>),
}

/// Dispatches a message from another mempool: a batch to the processor, a
/// request to the helper. Every message is acknowledged, whatever its kind.
pub fn route<Id, Tx>(msg: MempoolMsg<Id, Tx>) -> (r: Route<Id, Tx>)
    ensures
        match msg {
            MempoolMsg::Batch(b) => r == Route::<Id, Tx>::Processor(b),
            MempoolMsg::RequestBatch(source, digests) => r == Route::<Id, Tx>::Helper(source, digests),
        },
{
    match msg {
        MempoolMsg::Batch(b) => Route::Processor(b),
        MempoolMsg::RequestBatch(source, digests) => Route::Helper(source, digests),
    }
}

} // verus!
