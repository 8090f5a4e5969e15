//! The second busy-wait lock of the family, kept under its own name.
//!
//! [`SpinLock`] performs the same algorithm as [`crate::mutex::Mutex`]: one
//! [`AtomicUsize`] status word, acquisition by repeated
//! `compare_exchange(UNLOCKED, LOCKED)` with no backoff, a guard that checks
//! the payload out for the critical section, and panic poisoning on the
//! abnormal exit path. It exists so that the two can be measured side by side
//! and so that callers of either name keep working.

use crate::atomic_usize::AtomicUsize;
use crate::lock_status::{LOCKED, POISONED, UNLOCKED};
use vstd::prelude::*;

verus! {

/// A busy-wait spin lock protecting one payload of type `T`.
pub struct SpinLock<T> {
    status: AtomicUsize,
    inner: Option<T>,
}

/// The handle a successful acquisition returns; it carries the payload for the
/// duration of the critical section, and handing it back to the lock is the
/// release.
pub struct SpinLockGuard<T> {
    /// Read/write access to the protected payload.
    pub data: T,
}

/// The one error `lock` can report.
#[derive(Debug)]
pub enum SpinLockError {
    /// A previous holder failed abnormally inside the critical section; the
    /// lock is permanently unusable.
    Poisoned,
}

impl<T> SpinLock<T> {
    /// The status word and the payload slot agree: the payload is checked out
    /// exactly while the lock is held.
    pub closed spec fn wf(&self) -> bool {
        &&& self.status@ <= POISONED
        &&& self.status@ == LOCKED <==> self.inner is None
    }

    /// The status word: `UNLOCKED`, `LOCKED` or `POISONED`.
    pub closed spec fn status_word(&self) -> usize {
        self.status@
    }

    /// The payload at rest: present exactly while the lock is not held.
    pub closed spec fn stored(&self) -> Option<T> {
        self.inner
    }

    /// A fresh, unlocked lock around `inner`.
    pub fn new(inner: T) -> (lock: Self)
        ensures
            lock.wf(),
            lock.status_word() == UNLOCKED,
            lock.stored() == Some(inner),
    {
        SpinLock { status: AtomicUsize::new(UNLOCKED), inner: Some(inner) }
    }

    /// Acquires the lock by busy-waiting on the status word, failing fast with
    /// `Poisoned` when the word shows a poisoned lock. As with
    /// [`crate::mutex::Mutex::lock`], a worker spinning against a lock it
    /// already holds would never return, so the held state is excluded here.
    pub fn lock(&mut self) -> (r: Result<SpinLockGuard<T>, SpinLockError>)
        requires
            old(self).wf(),
            old(self).status_word() != LOCKED,
        ensures
            final(self).wf(),
            old(self).status_word() == UNLOCKED ==> {
                &&& r is Ok
                &&& r->Ok_0.data == old(self).stored()->Some_0
                &&& final(self).status_word() == LOCKED
                &&& final(self).stored() is None
            },
            old(self).status_word() == POISONED ==> {
                &&& r matches Err(SpinLockError::Poisoned)
                &&& *final(self) == *old(self)
            },
    {
        loop
            invariant
                self.wf(),
                self.status@ != LOCKED,
                *self == *old(self),
            decreases 0int,
        {
            match self.status.compare_exchange(UNLOCKED, LOCKED) {
                Ok(_) => {
                    // the word moved UNLOCKED -> LOCKED: check the payload out
                    let data = self.inner.take();
                    match data {
                        Some(data) => {
                            return Ok(SpinLockGuard { data });
                        },
                        None => {
                            // unreachable: the payload is present whenever the
                            // word is not LOCKED
                            proof {
                                assert(false);
                            }
                            return Err(SpinLockError::Poisoned);
                        },
                    }
                },
                Err(seen) => {
                    if seen == POISONED {
                        return Err(SpinLockError::Poisoned);
                    }
                    // the word shows LOCKED: keep spinning, without backoff
                },
            }
        }
    }

    /// The normal exit path of a critical section: the guard comes back and
    /// the status word returns to `UNLOCKED`.
    pub fn unlock(&mut self, guard: SpinLockGuard<T>)
        requires
            old(self).wf(),
            old(self).status_word() == LOCKED,
        ensures
            final(self).wf(),
            final(self).status_word() == UNLOCKED,
            final(self).stored() == Some(guard.data),
    {
        self.inner = Some(guard.data);
        self.status.store(UNLOCKED);
    }

    /// The abnormal exit path: the holder failed inside the critical section,
    /// so the guard comes back with the status word set to `POISONED`, which
    /// permanently disables the lock.
    pub fn poison(&mut self, guard: SpinLockGuard<T>)
        requires
            old(self).wf(),
            old(self).status_word() == LOCKED,
        ensures
            final(self).wf(),
            final(self).status_word() == POISONED,
            final(self).stored() == Some(guard.data),
    {
        self.inner = Some(guard.data);
        self.status.store(POISONED);
    }
}

} // verus!
