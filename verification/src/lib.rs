//! An S3-FIFO cache eviction engine.
//!
//! Three bounded FIFO queues cooperate to approximate LRU/LFU-quality
//! eviction with O(1) queue operations: a small admission queue for newly
//! seen keys, a main retention queue for keys that have shown reuse, and a
//! ghost queue of bare keys recently evicted from the small queue, which is
//! consulted to fast-track readmitted keys into the main queue.  Every entry
//! carries a saturating frequency counter in `[0, 3]` that `get` bumps and
//! the main queue's eviction scan decays.

pub mod cache;
pub mod laws;
pub mod model;

pub use cache::S3Fifo;
pub use model::Item;
