//! The status word shared by the busy-wait locks.
//!
//! Three values, with the transitions `UNLOCKED -> LOCKED` on a successful
//! acquire, `LOCKED -> UNLOCKED` on a normal release, and `LOCKED -> POISONED`
//! on a release after the critical section failed abnormally. `POISONED` is
//! terminal: no operation leaves it.

use vstd::prelude::*;

verus! {

/// The lock is free to acquire.
pub const UNLOCKED: usize = 0;

/// Some worker is inside the critical section.
pub const LOCKED: usize = 1;

/// A holder failed abnormally inside the critical section; the lock is
/// permanently unusable.
pub const POISONED: usize = 2;

} // verus!
