//! A busy-wait mutual-exclusion lock with panic poisoning.
//!
//! One [`AtomicUsize`] status word is the whole synchronization state: `lock`
//! repeatedly attempts `compare_exchange(UNLOCKED, LOCKED)` on it, with no
//! yielding and no backoff, which makes this the simple baseline among the lock
//! variants. A successful acquisition checks the payload out into a
//! [`MutexGuard`]; handing the guard back is the release, and the two ways of
//! handing it back are the two exit paths of a critical section: [`Mutex::unlock`]
//! for a normal exit, [`Mutex::poison`] for an abnormal one, after which the
//! lock refuses every later acquisition with [`MutexError::Poisoned`].

use crate::atomic_usize::AtomicUsize;
use crate::lock_status::{LOCKED, POISONED, UNLOCKED};
use vstd::prelude::*;

verus! {

/// A busy-wait lock protecting one payload of type `T`.
pub struct Mutex<T> {
    status: AtomicUsize,
    inner: Option<T>,
}

/// The handle a successful acquisition returns. It carries the payload for the
/// duration of the critical section and is the only path to it; handing it
/// back to the lock performs the release transition.
pub struct MutexGuard<T> {
    /// Read/write access to the protected payload.
    pub data: T,
}

/// The one error `lock` can report.
#[derive(Debug)]
pub enum MutexError {
    /// A previous holder failed abnormally inside the critical section; the
    /// lock is permanently unusable.
    Poisoned,
}

impl<T> Mutex<T> {
    /// The status word and the payload slot agree: the payload is checked out
    /// exactly while the lock is held.
    pub closed spec fn wf(&self) -> bool {
        &&& self.status@ <= POISONED
        &&& self.status@ == LOCKED <==> self.inner is None
    }

    /// The status word: `UNLOCKED`, `LOCKED` or `POISONED`.
    pub closed spec fn status_word(&self) -> usize {
        self.status@
    }

    /// The payload at rest: present exactly while the lock is not held.
    pub closed spec fn stored(&self) -> Option<T> {
        self.inner
    }

    /// A fresh, unlocked lock around `inner`.
    pub fn new(inner: T) -> (lock: Self)
        ensures
            lock.wf(),
            lock.status_word() == UNLOCKED,
            lock.stored() == Some(inner),
    {
        Mutex { status: AtomicUsize::new(UNLOCKED), inner: Some(inner) }
    }

    /// Acquires the lock: compare-exchange on the status word until it moves
    /// from `UNLOCKED` to `LOCKED`, failing fast with `Poisoned` when the word
    /// shows a poisoned lock. A worker spinning against a lock it already
    /// holds would never return, so the held state is excluded here; spinning
    /// against *another* holder is covered by the interleaved runs in
    /// `contention`, where an acquisition attempt on a held lock is a failed
    /// compare-exchange that changes nothing.
    pub fn lock(&mut self) -> (r: Result<MutexGuard<T>, MutexError>)
        requires
            old(self).wf(),
            old(self).status_word() != LOCKED,
        ensures
            final(self).wf(),
            old(self).status_word() == UNLOCKED ==> {
                &&& r is Ok
                &&& r->Ok_0.data == old(self).stored()->Some_0
                &&& final(self).status_word() == LOCKED
                &&& final(self).stored() is None
            },
            old(self).status_word() == POISONED ==> {
                &&& r matches Err(MutexError::Poisoned)
                &&& *final(self) == *old(self)
            },
    {
        loop
            invariant
                self.wf(),
                self.status@ != LOCKED,
                *self == *old(self),
            decreases 0int,
        {
            match self.status.compare_exchange(UNLOCKED, LOCKED) {
                Ok(_) => {
                    // the word moved UNLOCKED -> LOCKED: check the payload out
                    let data = self.inner.take();
                    match data {
                        Some(data) => {
                            return Ok(MutexGuard { data });
                        },
                        None => {
                            // unreachable: the payload is present whenever the
                            // word is not LOCKED
                            proof {
                                assert(false);
                            }
                            return Err(MutexError::Poisoned);
                        },
                    }
                },
                Err(seen) => {
                    if seen == POISONED {
                        return Err(MutexError::Poisoned);
                    }
                    // the word shows LOCKED: keep spinning, without backoff
                },
            }
        }
    }

    /// The normal exit path of a critical section: the guard comes back and
    /// the status word returns to `UNLOCKED`. Destroying a guard on a normal
    /// exit performs exactly this transition.
    pub fn unlock(&mut self, guard: MutexGuard<T>)
        requires
            old(self).wf(),
            old(self).status_word() == LOCKED,
        ensures
            final(self).wf(),
            final(self).status_word() == UNLOCKED,
            final(self).stored() == Some(guard.data),
    {
        self.inner = Some(guard.data);
        self.status.store(UNLOCKED);
    }

    /// The abnormal exit path: the holder failed inside the critical section,
    /// so the guard comes back with the status word set to `POISONED`.
    /// Destroying a guard while unwinding from such a failure performs exactly
    /// this transition, which permanently disables the lock: by the contract
    /// of `lock`, every later acquisition reports `Poisoned`.
    pub fn poison(&mut self, guard: MutexGuard<T>)
        requires
            old(self).wf(),
            old(self).status_word() == LOCKED,
        ensures
            final(self).wf(),
            final(self).status_word() == POISONED,
            final(self).stored() == Some(guard.data),
    {
        self.inner = Some(guard.data);
        self.status.store(POISONED);
    }
}

} // verus!
