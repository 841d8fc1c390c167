//! The mempool of a consensus node: sealing policies that group transactions
//! into batches, the batcher that drives them, the wire form of batches, and
//! the state machines of the processor, the helper and the synchronizer.
//!
//! Every component is a value that its caller drives: the caller owns the
//! clock, the queues, the store and the network, hands each event in, and
//! carries out what comes back.
pub mod batcher;
pub mod codec;
mod config;
mod fnv_map;
mod helper;
pub mod mempool_handler;
pub mod msg;
mod processor;
pub mod quorum_waiter;
pub mod sealer;
pub mod synchronizer;
mod traits;

pub use batcher::Batcher;
pub use config::Config;
pub use helper::Helper;
pub use msg::{digest_key, Batch, ConsensusMempoolMsg, Digest, MempoolMsg};
pub use processor::{Processed, Processor};
pub use synchronizer::{PendingEntry, SyncBroadcast, SyncRequest, Synchronizer};
pub use traits::{Round, Sealer, Transaction};
