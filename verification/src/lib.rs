//! Hand-built intra-process synchronization primitives: a raw atomic cell of one
//! machine word, busy-wait locks with panic poisoning built on that cell, an
//! optimized test-and-test-and-set spin lock with adaptive backoff, and the
//! computational core of a benchmark harness that measures per-acquisition
//! latency under contention.
//!
//! The atomic operations are specified as transitions on the stored word; the
//! `contention` module composes those transitions under arbitrary interleavings
//! of workers, which is where the lost-update and poisoning guarantees are
//! proved. A compressed sparse row matrix, a standalone structure specified in
//! the same style, rounds the crate out.

pub mod atomic_usize;
pub mod compressed_sparse_row;
pub mod contention;
pub mod harness;
pub mod lock_status;
pub mod mutex;
pub mod not_optimized_spinlock;
pub mod optimized_spinlock;
