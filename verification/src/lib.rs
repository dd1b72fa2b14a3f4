//! Random allocation of unique identifiers from a fixed range.
//!
//! The allocator draws identifiers uniformly at random, without replacement,
//! from `[0, capacity)`, using a sparse, incremental Fisher-Yates shuffle:
//! instead of materializing the whole range, it keeps a shrinking window of
//! undrawn slots and a sparse override map recording where slot identities
//! have been relocated, so `k` draws cost `O(k)` memory.

pub mod allocator;
pub mod errors;
pub mod laws;
pub mod model;
mod rng;

pub use allocator::Counter;
pub use errors::Error;
pub use rng::seeded_u64_of;
