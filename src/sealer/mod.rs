//! The three sealing policies.
mod hybrid;
mod sized;
mod timed;

pub use hybrid::{Counter, HybridSealer};
pub use sized::{capped, sized_fires_on_large_update, sized_seal_twice, Sized};
pub use timed::{later, timed_fires_empty, Timed};
