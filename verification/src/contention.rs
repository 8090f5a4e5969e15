//! Interleaved multi-worker runs against the primitives.
//!
//! True parallel workers take steps in some order the scheduler chooses; each
//! step is one atomic event, so a whole run is a sequence of events — a
//! schedule. The functions here take the schedule as an explicit input and are
//! verified for every schedule, which is how the crate states its contention
//! guarantees: however N workers' increments interleave, none is lost
//! ([`contended_increments`], [`contended_increments_ttas`],
//! [`concurrent_fetch_adds`]), and once a holder crashes inside its critical
//! section the lock stays poisoned and refuses every later acquisition
//! ([`ContendedRun::step`], [`ContendedRun::run_schedule`]).

use crate::atomic_usize::AtomicUsize;
use crate::lock_status::{LOCKED, POISONED, UNLOCKED};
use crate::optimized_spinlock::OptimizedSpinLock;
use vstd::prelude::*;

verus! {

/// The sum of a sequence of per-worker counts.
pub open spec fn sum(s: Seq<usize>) -> int
    decreases s.len(),
{
    if s.len() == 0 {
        0
    } else {
        sum(s.drop_last()) + s.last()
    }
}

proof fn lemma_sum_push(s: Seq<usize>, x: usize)
    ensures
        sum(s.push(x)) == sum(s) + x,
{
    assert(s.push(x).drop_last() =~= s);
}

proof fn lemma_sum_update(s: Seq<usize>, i: int, x: usize)
    requires
        0 <= i < s.len(),
    ensures
        sum(s.update(i, x)) == sum(s) - s[i] + x,
    decreases s.len(),
{
    if i == s.len() - 1 {
        assert(s.update(i, x).drop_last() =~= s.drop_last());
    } else {
        lemma_sum_update(s.drop_last(), i, x);
        assert(s.update(i, x).drop_last() =~= s.drop_last().update(i, x));
        assert(s.update(i, x).last() == s.last());
    }
}

proof fn lemma_sum_nonneg(s: Seq<usize>)
    ensures
        sum(s) >= 0,
    decreases s.len(),
{
    if s.len() > 0 {
        lemma_sum_nonneg(s.drop_last());
    }
}

proof fn lemma_sum_ge_entry(s: Seq<usize>, i: int)
    requires
        0 <= i < s.len(),
    ensures
        sum(s) >= s[i],
    decreases s.len(),
{
    lemma_sum_nonneg(s.drop_last());
    if i == s.len() - 1 {
    } else {
        lemma_sum_ge_entry(s.drop_last(), i);
    }
}

proof fn lemma_sum_zero(s: Seq<usize>)
    requires
        forall|i: int| 0 <= i < s.len() ==> s[i] == 0,
    ensures
        sum(s) == 0,
    decreases s.len(),
{
    if s.len() > 0 {
        lemma_sum_zero(s.drop_last());
    }
}

/// What one step of a contended run did.
#[derive(Clone, Copy, Debug, PartialEq, Eq)]
pub enum StepResult {
    /// The worker's compare-exchange moved the status word `UNLOCKED -> LOCKED`.
    Acquired,
    /// The compare-exchange failed against another holder; the worker spins on.
    Contended,
    /// The holding worker incremented the counter and released the lock.
    Released,
    /// The holding worker failed abnormally inside the critical section; its
    /// guard poisoned the lock on the way out.
    Crashed,
    /// The acquisition attempt found the lock poisoned and received the error.
    Poisoned,
    /// The worker has retired all its increments and takes no further steps.
    Idle,
}

/// The complete state of one contended run: N workers increment one shared
/// counter through a busy-wait lock, and each owes some number of increments.
pub struct ContendedRun {
    status: AtomicUsize,
    holder: usize,
    counter: usize,
    remaining: Vec<usize>,
}

impl ContendedRun {
    /// The lock's status word.
    pub closed spec fn status_word(&self) -> usize {
        self.status@
    }

    /// Which worker is inside the critical section; meaningful only while the
    /// status word shows `LOCKED`.
    pub closed spec fn holder_index(&self) -> int {
        self.holder as int
    }

    /// The protected counter.
    pub closed spec fn count(&self) -> usize {
        self.counter
    }

    /// How many increments each worker still owes.
    pub closed spec fn owed(&self) -> Seq<usize> {
        self.remaining@
    }

    /// The number of workers.
    pub open spec fn workers(&self) -> int {
        self.owed().len() as int
    }

    /// Well-formed: the status word is one of its three values, and while the
    /// lock is held a real worker holds it and still owes the increment it is
    /// inside.
    pub closed spec fn wf(&self) -> bool {
        &&& self.status@ <= POISONED
        &&& self.status@ == LOCKED ==> self.holder < self.remaining@.len()
            && self.remaining@[self.holder as int] >= 1
    }

    /// A fresh run: `n` workers, each owing `k` increments, around an unlocked
    /// lock and a counter at zero.
    pub fn new(n: usize, k: usize) -> (run: Self)
        ensures
            run.wf(),
            run.status_word() == UNLOCKED,
            run.count() == 0,
            run.workers() == n,
            forall|i: int| 0 <= i < n ==> run.owed()[i] == k,
            sum(run.owed()) == n * k,
    {
        let mut remaining: Vec<usize> = Vec::new();
        let mut i: usize = 0;
        while i < n
            invariant
                i <= n,
                remaining@.len() == i,
                forall|j: int| 0 <= j < i ==> remaining@[j] == k,
                sum(remaining@) == i * k,
            decreases n - i,
        {
            proof {
                lemma_sum_push(remaining@, k);
                assert((i + 1) * k == i * k + k) by (nonlinear_arith);
            }
            remaining.push(k);
            i = i + 1;
        }
        ContendedRun { status: AtomicUsize::new(UNLOCKED), holder: 0, counter: 0, remaining }
    }

    /// The counter's current value.
    pub fn counter(&self) -> (r: usize)
        ensures
            r == self.count(),
    {
        self.counter
    }

    /// One atomic event of worker `w`. A worker inside its critical section
    /// finishes it: normally, by incrementing the counter and releasing the
    /// lock, or — when `fail` says its computation failed — by poisoning the
    /// lock as its guard unwinds. Any other worker with increments left
    /// attempts `compare_exchange(UNLOCKED, LOCKED)` on the status word, which
    /// acquires a free lock, spins against a held one, and receives the error
    /// from a poisoned one — after which the word still shows `POISONED`:
    /// poisoning is sticky under every event.
    pub fn step(&mut self, w: usize, fail: bool) -> (r: StepResult)
        requires
            old(self).wf(),
            w < old(self).workers(),
            old(self).status_word() == LOCKED && old(self).holder_index() == w && !fail
                ==> old(self).count() < usize::MAX,
        ensures
            final(self).wf(),
            final(self).workers() == old(self).workers(),
            old(self).status_word() == LOCKED && old(self).holder_index() == w && !fail ==> {
                &&& r == StepResult::Released
                &&& final(self).status_word() == UNLOCKED
                &&& final(self).count() == old(self).count() + 1
                &&& final(self).owed() == old(self).owed().update(
                    w as int,
                    (old(self).owed()[w as int] - 1) as usize,
                )
            },
            old(self).status_word() == LOCKED && old(self).holder_index() == w && fail ==> {
                &&& r == StepResult::Crashed
                &&& final(self).status_word() == POISONED
                &&& final(self).count() == old(self).count()
                &&& final(self).owed() == old(self).owed()
            },
            !(old(self).status_word() == LOCKED && old(self).holder_index() == w) && old(
                self,
            ).owed()[w as int] == 0 ==> r == StepResult::Idle && *final(self) == *old(self),
            old(self).status_word() == UNLOCKED && old(self).owed()[w as int] > 0 ==> {
                &&& r == StepResult::Acquired
                &&& final(self).status_word() == LOCKED
                &&& final(self).holder_index() == w
                &&& final(self).count() == old(self).count()
                &&& final(self).owed() == old(self).owed()
            },
            old(self).status_word() == LOCKED && old(self).holder_index() != w && old(
                self,
            ).owed()[w as int] > 0 ==> r == StepResult::Contended && *final(self) == *old(self),
            old(self).status_word() == POISONED && old(self).owed()[w as int] > 0 ==> r
                == StepResult::Poisoned && *final(self) == *old(self),
    {
        if self.status.load() == LOCKED && self.holder == w {
            if fail {
                // the holder's computation failed: its guard poisons the lock
                self.status.store(POISONED);
                StepResult::Crashed
            } else {
                // the critical section: one increment, then the release
                self.counter = self.counter + 1;
                let left = self.remaining[w] - 1;
                self.remaining[w] = left;
                self.status.store(UNLOCKED);
                StepResult::Released
            }
        } else if self.remaining[w] == 0 {
            // this worker has retired all its increments
            StepResult::Idle
        } else {
            match self.status.compare_exchange(UNLOCKED, LOCKED) {
                Ok(_) => {
                    self.holder = w;
                    StepResult::Acquired
                },
                Err(seen) => {
                    if seen == POISONED {
                        StepResult::Poisoned
                    } else {
                        StepResult::Contended
                    }
                },
            }
        }
    }

    /// Applies a whole schedule of normally-completing events: any
    /// interleaving the scheduler could produce. Increments are conserved —
    /// every one is either already in the counter or still owed — no event
    /// poisons the lock, and a lock that was already poisoned refuses every
    /// event of the schedule unchanged.
    pub fn run_schedule(&mut self, schedule: &Vec<usize>)
        requires
            old(self).wf(),
            forall|i: int| 0 <= i < schedule@.len() ==> schedule@[i] < old(self).workers(),
            old(self).count() + sum(old(self).owed()) <= usize::MAX,
        ensures
            final(self).wf(),
            final(self).workers() == old(self).workers(),
            final(self).count() + sum(final(self).owed()) == old(self).count() + sum(
                old(self).owed(),
            ),
            final(self).status_word() == POISONED ==> old(self).status_word() == POISONED,
            old(self).status_word() == POISONED ==> *final(self) == *old(self),
    {
        let ghost budget = old(self).count() + sum(old(self).owed());
        let mut i: usize = 0;
        while i < schedule.len()
            invariant
                self.wf(),
                self.workers() == old(self).workers(),
                i <= schedule@.len(),
                forall|j: int| 0 <= j < schedule@.len() ==> schedule@[j] < self.workers(),
                self.count() + sum(self.owed()) == budget,
                budget == old(self).count() + sum(old(self).owed()),
                budget <= usize::MAX,
                self.status_word() == POISONED ==> old(self).status_word() == POISONED,
                old(self).status_word() == POISONED ==> *self == *old(self),
            decreases schedule@.len() - i,
        {
            let w = schedule[i];
            proof {
                if self.status_word() == LOCKED && self.holder_index() == w {
                    lemma_sum_ge_entry(self.owed(), w as int);
                }
            }
            let ghost pre = *self;
            let _ = self.step(w, false);
            proof {
                if pre.status_word() == LOCKED && pre.holder_index() == w {
                    lemma_sum_update(
                        pre.owed(),
                        w as int,
                        (pre.owed()[w as int] - 1) as usize,
                    );
                }
            }
            i = i + 1;
        }
    }

    /// Drives the run until every worker has retired every increment. No
    /// update is lost and none is invented: the counter ends having absorbed
    /// exactly the increments that were owed.
    pub fn run_to_completion(&mut self)
        requires
            old(self).wf(),
            old(self).status_word() != POISONED,
            old(self).count() + sum(old(self).owed()) <= usize::MAX,
        ensures
            final(self).wf(),
            final(self).status_word() == UNLOCKED,
            final(self).count() == old(self).count() + sum(old(self).owed()),
            forall|i: int| 0 <= i < final(self).workers() ==> final(self).owed()[i] == 0,
    {
        let ghost budget = old(self).count() + sum(old(self).owed());
        loop
            invariant
                self.wf(),
                self.status_word() != POISONED,
                self.count() + sum(self.owed()) == budget,
                budget == old(self).count() + sum(old(self).owed()),
                budget <= usize::MAX,
            ensures
                self.wf(),
                self.status_word() == UNLOCKED,
                self.count() + sum(self.owed()) == budget,
                forall|i: int| 0 <= i < self.workers() ==> self.owed()[i] == 0,
            decreases 2 * sum(self.owed()) + if self.status_word() == UNLOCKED {
                1int
            } else {
                0int
            },
        {
            proof {
                lemma_sum_nonneg(self.owed());
            }
            if self.status.load() == LOCKED {
                // let the holder finish its critical section
                let w = self.holder;
                proof {
                    lemma_sum_ge_entry(self.owed(), w as int);
                }
                let ghost pre = *self;
                let _ = self.step(w, false);
                proof {
                    lemma_sum_update(
                        pre.owed(),
                        w as int,
                        (pre.owed()[w as int] - 1) as usize,
                    );
                }
            } else {
                // the lock is free: look for a worker with increments left
                let mut w: usize = 0;
                let n = self.remaining.len();
                while w < n && self.remaining[w] == 0
                    invariant
                        n == self.workers(),
                        w <= n,
                        forall|j: int| 0 <= j < w ==> self.owed()[j] == 0,
                    decreases n - w,
                {
                    w = w + 1;
                }
                if w == n {
                    // everything owed has been retired
                    proof {
                        lemma_sum_zero(self.owed());
                    }
                    break;
                }
                let _ = self.step(w, false);
            }
        }
        proof {
            lemma_sum_zero(self.owed());
        }
    }
}

/// However N workers' increments through the busy-wait lock interleave, none
/// is lost: after `n` workers retire `k` increments each — the schedule
/// giving any prefix of the interleaving, the rest driven to completion — the
/// protected counter reads exactly `n * k`.
pub fn contended_increments(n: usize, k: usize, schedule: &Vec<usize>) -> (total: usize)
    requires
        n * k <= usize::MAX,
        forall|i: int| 0 <= i < schedule@.len() ==> schedule@[i] < n,
    ensures
        total == n * k,
{
    let mut run = ContendedRun::new(n, k);
    run.run_schedule(schedule);
    run.run_to_completion();
    run.counter()
}

/// The same lost-update guarantee for the test-and-test-and-set lock: however
/// N workers' increments through a shared [`OptimizedSpinLock`] interleave —
/// the schedule giving any prefix of the interleaving, the rest driven to
/// completion — the protected counter ends at exactly `n * k`. This lock hands
/// out no guard, so the run tracks by hand which worker holds it, the
/// discipline its callers owe.
pub fn contended_increments_ttas(n: usize, k: usize, schedule: &Vec<usize>) -> (total: usize)
    requires
        n * k <= usize::MAX,
        forall|i: int| 0 <= i < schedule@.len() ==> schedule@[i] < n,
    ensures
        total == n * k,
{
    let mut lock = OptimizedSpinLock::new(0usize);
    let mut remaining: Vec<usize> = Vec::new();
    let mut i: usize = 0;
    while i < n
        invariant
            i <= n,
            remaining@.len() == i,
            sum(remaining@) == i * k,
        decreases n - i,
    {
        proof {
            lemma_sum_push(remaining@, k);
            assert((i + 1) * k == i * k + k) by (nonlinear_arith);
        }
        remaining.push(k);
        i = i + 1;
    }
    let mut holder: usize = 0;
    let mut holding: bool = false;
    let mut i: usize = 0;
    while i < schedule.len()
        invariant
            i <= schedule@.len(),
            remaining@.len() == n,
            forall|j: int| 0 <= j < schedule@.len() ==> schedule@[j] < n,
            holding == lock.locked(),
            holding ==> holder < n && remaining@[holder as int] >= 1,
            lock.value() + sum(remaining@) == n * k,
            n * k <= usize::MAX,
        decreases schedule@.len() - i,
    {
        let w = schedule[i];
        if holding && holder == w {
            // the holder finishes its critical section: increment and release
            proof {
                lemma_sum_ge_entry(remaining@, w as int);
                lemma_sum_nonneg(remaining@);
            }
            let owed = remaining[w];
            proof {
                lemma_sum_update(remaining@, w as int, (owed - 1) as usize);
            }
            let d = lock.data();
            *d = *d + 1;
            lock.unlock();
            remaining[w] = owed - 1;
            holding = false;
        } else {
            let owed = remaining[w];
            if owed > 0 {
                // one test-and-test-and-set attempt; it fails while another
                // worker holds the lock
                if lock.try_lock() {
                    holder = w;
                    holding = true;
                }
            }
        }
        i = i + 1;
    }
    loop
        invariant
            remaining@.len() == n,
            holding == lock.locked(),
            holding ==> holder < n && remaining@[holder as int] >= 1,
            lock.value() + sum(remaining@) == n * k,
            n * k <= usize::MAX,
        ensures
            sum(remaining@) == 0,
            !lock.locked(),
            lock.value() + sum(remaining@) == n * k,
        decreases 2 * sum(remaining@) + if lock.locked() {
            0int
        } else {
            1int
        },
    {
        proof {
            lemma_sum_nonneg(remaining@);
        }
        if holding {
            let w = holder;
            proof {
                lemma_sum_ge_entry(remaining@, w as int);
            }
            let owed = remaining[w];
            proof {
                lemma_sum_update(remaining@, w as int, (owed - 1) as usize);
            }
            let d = lock.data();
            *d = *d + 1;
            lock.unlock();
            remaining[w] = owed - 1;
            holding = false;
        } else {
            let mut w: usize = 0;
            while w < n && remaining[w] == 0
                invariant
                    n == remaining@.len(),
                    w <= n,
                    forall|j: int| 0 <= j < w ==> remaining@[j] == 0,
                decreases n - w,
            {
                w = w + 1;
            }
            if w == n {
                proof {
                    lemma_sum_zero(remaining@);
                }
                break;
            }
            // the lock is free, so the attempt succeeds
            let _ = lock.try_lock();
            holder = w;
            holding = true;
        }
    }
    // read the counter out the way this lock's callers do
    lock.lock();
    let total = *lock.data();
    lock.unlock();
    total
}

/// However N workers' `fetch_add(1)` calls on a shared cell interleave, the
/// additions compose: after `n` workers retire `k` calls each, the cell reads
/// exactly `n * k`.
pub fn concurrent_fetch_adds(n: usize, k: usize, schedule: &Vec<usize>) -> (total: usize)
    requires
        n * k <= usize::MAX,
        forall|i: int| 0 <= i < schedule@.len() ==> schedule@[i] < n,
    ensures
        total == n * k,
{
    let mut cell = AtomicUsize::new(0);
    let mut remaining: Vec<usize> = Vec::new();
    let mut i: usize = 0;
    while i < n
        invariant
            i <= n,
            remaining@.len() == i,
            sum(remaining@) == i * k,
        decreases n - i,
    {
        proof {
            lemma_sum_push(remaining@, k);
            assert((i + 1) * k == i * k + k) by (nonlinear_arith);
        }
        remaining.push(k);
        i = i + 1;
    }
    let mut i: usize = 0;
    while i < schedule.len()
        invariant
            i <= schedule@.len(),
            remaining@.len() == n,
            forall|j: int| 0 <= j < schedule@.len() ==> schedule@[j] < n,
            cell@ + sum(remaining@) == n * k,
            n * k <= usize::MAX,
        decreases schedule@.len() - i,
    {
        let w = schedule[i];
        let owed = remaining[w];
        if owed > 0 {
            proof {
                lemma_sum_ge_entry(remaining@, w as int);
                lemma_sum_nonneg(remaining@);
                lemma_sum_update(remaining@, w as int, (owed - 1) as usize);
            }
            let _ = cell.fetch_add(1);
            remaining[w] = owed - 1;
        }
        i = i + 1;
    }
    loop
        invariant
            remaining@.len() == n,
            cell@ + sum(remaining@) == n * k,
            n * k <= usize::MAX,
        ensures
            sum(remaining@) == 0,
            cell@ + sum(remaining@) == n * k,
        decreases sum(remaining@),
    {
        let mut w: usize = 0;
        while w < n && remaining[w] == 0
            invariant
                n == remaining@.len(),
                w <= n,
                forall|j: int| 0 <= j < w ==> remaining@[j] == 0,
            decreases n - w,
        {
            w = w + 1;
        }
        if w == n {
            proof {
                lemma_sum_zero(remaining@);
            }
            break;
        }
        let owed = remaining[w];
        proof {
            lemma_sum_ge_entry(remaining@, w as int);
            lemma_sum_nonneg(remaining@);
            lemma_sum_update(remaining@, w as int, (owed - 1) as usize);
        }
        let _ = cell.fetch_add(1);
        remaining[w] = owed - 1;
    }
    cell.load()
}

} // verus!
