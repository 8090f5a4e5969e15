//! A raw cell of one unsigned machine word with an atomic operation set:
//! load, store, fetch-add, swap and compare-exchange.
//!
//! Every operation is specified as a transition on the stored word. On the
//! instruction family with a hardware exchange prefix each operation is a
//! single instruction and the transition is taken in one step; the
//! load-linked/store-conditional family realizes `swap` and `compare_exchange`
//! as a bounded retry protocol instead, specified below over an explicit trace
//! of the interference it met.

use vstd::prelude::*;

verus! {

/// What `swap` computes when the load-linked/store-conditional family runs it:
/// starting from `value`, each entry of `interference` describes one attempt of
/// the retry loop. `None` means no other writer intervened between the linked
/// load and the conditional store, so the store succeeds and the loaded value
/// comes back; `Some(w)` means another worker wrote `w` in between, the store
/// fails, and the next attempt loads `w`. Attempts past the end of
/// `interference` are quiet. After `retries_left` failed attempts the protocol
/// gives up rather than spin forever. The result is the final cell value paired
/// with `Some(previous)` on completion and `None` on giving up.
pub open spec fn swap_run(
    value: usize,
    new: usize,
    interference: Seq<Option<usize>>,
    retries_left: nat,
) -> (usize, Option<usize>)
    decreases interference.len(),
{
    if interference.len() == 0 || interference[0] is None {
        (new, Some(value))
    } else {
        let w = interference[0]->Some_0;
        if retries_left == 0 {
            (w, None)
        } else {
            swap_run(w, new, interference.drop_first(), (retries_left - 1) as nat)
        }
    }
}

/// What `compare_exchange` computes when the load-linked/store-conditional
/// family runs it, in the same terms as [`swap_run`]. A loaded value other than
/// `current` ends the protocol at once with the failure result; a quiet attempt
/// ends it with success; an intervening write costs one retry.
pub open spec fn cas_run(
    value: usize,
    current: usize,
    new: usize,
    interference: Seq<Option<usize>>,
    retries_left: nat,
) -> (usize, Option<Result<usize, usize>>)
    decreases interference.len(),
{
    if value != current {
        (value, Some(Err(value)))
    } else if interference.len() == 0 || interference[0] is None {
        (new, Some(Ok(value)))
    } else {
        let w = interference[0]->Some_0;
        if retries_left == 0 {
            (w, None)
        } else {
            cas_run(w, current, new, interference.drop_first(), (retries_left - 1) as nat)
        }
    }
}

/// One unsigned machine word of state shared between workers. All access goes
/// through the operations below; the raw storage is never handed out.
pub struct AtomicUsize {
    inner: usize,
}

impl View for AtomicUsize {
    type V = usize;

    closed spec fn view(&self) -> usize {
        self.inner
    }
}

impl AtomicUsize {
    /// A fresh cell holding `v`.
    pub fn new(v: usize) -> (cell: Self)
        ensures
            cell@ == v,
    {
        AtomicUsize { inner: v }
    }

    /// The value currently stored; it happens-after some prior store.
    pub fn load(&self) -> (r: usize)
        ensures
            r == self@,
    {
        self.inner
    }

    /// Replaces the value. Realized as an unconditional exchange whose prior
    /// value is discarded, so it orders like `swap`, not like a plain write.
    pub fn store(&mut self, v: usize)
        ensures
            final(self)@ == v,
    {
        self.inner = v;
    }

    /// Adds `v` to the cell with the wrap-around of the hardware add, and
    /// returns the value the cell held before the addition.
    pub fn fetch_add(&mut self, v: usize) -> (prev: usize)
        ensures
            prev == old(self)@,
            final(self)@ == vstd::wrapping::usize_specs::wrapping_add(old(self)@, v),
    {
        let prev = self.inner;
        self.inner = self.inner.wrapping_add(v);
        prev
    }

    /// Replaces the value with `v` and returns the value it replaced.
    pub fn swap(&mut self, v: usize) -> (prev: usize)
        ensures
            prev == old(self)@,
            final(self)@ == v,
    {
        let prev = self.inner;
        self.inner = v;
        prev
    }

    /// Compares the stored value with `current`; on a match stores `new` and
    /// returns the prior value as success, on a mismatch leaves the cell
    /// untouched and returns the actual value as failure.
    pub fn compare_exchange(&mut self, current: usize, new: usize) -> (r: Result<usize, usize>)
        ensures
            old(self)@ == current ==> r == Ok::<usize, usize>(current) && final(self)@ == new,
            old(self)@ != current ==> r == Err::<usize, usize>(old(self)@) && *final(self) == *old(self),
    {
        if self.inner == current {
            self.inner = new;
            Ok(current)
        } else {
            Err(self.inner)
        }
    }
}

impl AtomicUsize {
    /// `swap` as the load-linked/store-conditional family realizes it: a retry
    /// loop around a linked load and a conditional store. The writes of
    /// competing workers are an explicit input, one entry per attempt, so the
    /// protocol is specified for every interleaving; `max_retries` bounds the
    /// failed attempts, and `None` reports the bound exceeded, which callers
    /// must treat as fatal.
    pub fn swap_llsc(
        &mut self,
        new: usize,
        interference: &Vec<Option<usize>>,
        max_retries: usize,
    ) -> (r: Option<usize>)
        ensures
            ({
                let (cell, out) = swap_run(old(self)@, new, interference@, max_retries as nat);
                final(self)@ == cell && r == out
            }),
    {
        let mut i: usize = 0;
        let mut retries: usize = 0;
        proof {
            assert(interference@.skip(0) =~= interference@);
        }
        loop
            invariant
                retries <= max_retries,
                i <= interference@.len(),
                swap_run(self@, new, interference@.skip(i as int), (max_retries - retries) as nat)
                    == swap_run(old(self)@, new, interference@, max_retries as nat),
            decreases interference@.len() - i,
        {
            proof {
                if i < interference@.len() {
                    assert(interference@.skip(i as int).drop_first() =~= interference@.skip(
                        i as int + 1,
                    ));
                    assert(interference@.skip(i as int)[0] == interference@[i as int]);
                }
            }
            if i < interference.len() {
                match interference[i] {
                    Some(w) => {
                        // the conditional store failed: another worker wrote `w`
                        self.inner = w;
                        if retries == max_retries {
                            return None;
                        }
                        retries = retries + 1;
                        i = i + 1;
                    },
                    None => {
                        let prev = self.inner;
                        self.inner = new;
                        return Some(prev);
                    },
                }
            } else {
                let prev = self.inner;
                self.inner = new;
                return Some(prev);
            }
        }
    }

    /// `compare_exchange` as the load-linked/store-conditional family realizes
    /// it, in the same terms as [`Self::swap_llsc`]. A linked load that does
    /// not match `current` ends the protocol at once with the failure result;
    /// exceeding `max_retries` reports `None`, which callers must treat as
    /// fatal.
    pub fn compare_exchange_llsc(
        &mut self,
        current: usize,
        new: usize,
        interference: &Vec<Option<usize>>,
        max_retries: usize,
    ) -> (r: Option<Result<usize, usize>>)
        ensures
            ({
                let (cell, out) = cas_run(
                    old(self)@,
                    current,
                    new,
                    interference@,
                    max_retries as nat,
                );
                final(self)@ == cell && r == out
            }),
    {
        let mut i: usize = 0;
        let mut retries: usize = 0;
        proof {
            assert(interference@.skip(0) =~= interference@);
        }
        loop
            invariant
                retries <= max_retries,
                i <= interference@.len(),
                cas_run(
                    self@,
                    current,
                    new,
                    interference@.skip(i as int),
                    (max_retries - retries) as nat,
                ) == cas_run(old(self)@, current, new, interference@, max_retries as nat),
            decreases interference@.len() - i,
        {
            proof {
                if i < interference@.len() {
                    assert(interference@.skip(i as int).drop_first() =~= interference@.skip(
                        i as int + 1,
                    ));
                    assert(interference@.skip(i as int)[0] == interference@[i as int]);
                }
            }
            let prev = self.inner;
            if prev != current {
                return Some(Err(prev));
            }
            if i < interference.len() {
                match interference[i] {
                    Some(w) => {
                        // the conditional store failed: another worker wrote `w`
                        self.inner = w;
                        if retries == max_retries {
                            return None;
                        }
                        retries = retries + 1;
                        i = i + 1;
                    },
                    None => {
                        self.inner = new;
                        return Some(Ok(prev));
                    },
                }
            } else {
                self.inner = new;
                return Some(Ok(prev));
            }
        }
    }
}

/// The retry bound is exact for `swap`: the protocol gives up if and only if
/// every attempt it is allowed — the budget of failures plus the one attempt
/// past it — suffers an intervening write. In particular it always terminates
/// within `budget + 1` attempts.
pub proof fn lemma_swap_run_gives_up_iff(
    value: usize,
    new: usize,
    interference: Seq<Option<usize>>,
    budget: nat,
)
    ensures
        (swap_run(value, new, interference, budget).1 is None) <==> (interference.len() > budget
            && forall|t: int| 0 <= t <= budget ==> interference[t] is Some),
    decreases budget,
{
    if interference.len() == 0 || interference[0] is None {
    } else if budget == 0 {
    } else {
        let w = interference[0]->Some_0;
        let d = interference.drop_first();
        lemma_swap_run_gives_up_iff(w, new, d, (budget - 1) as nat);
        if swap_run(value, new, interference, budget).1 is None {
            assert(d.len() > budget - 1 && forall|t: int| 0 <= t <= budget - 1 ==> d[t] is Some);
            assert forall|t: int| 0 <= t <= budget implies interference[t] is Some by {
                if t > 0 {
                    assert(d[t - 1] is Some);
                    assert(d[t - 1] == interference[t]);
                }
            }
        }
        if interference.len() > budget && (forall|t: int|
            0 <= t <= budget ==> interference[t] is Some) {
            assert forall|t: int| 0 <= t <= budget - 1 implies d[t] is Some by {
                assert(interference[t + 1] is Some);
                assert(d[t] == interference[t + 1]);
            }
            assert(swap_run(w, new, d, (budget - 1) as nat).1 is None);
        }
    }
}

/// The retry bound is exact for `compare_exchange`: starting from a matching
/// value, the protocol gives up if and only if every attempt before the last
/// allowed one suffers an intervening write of the expected value itself — the
/// one pattern in which the adversary keeps the store failing without settling
/// the comparison — and the last allowed attempt suffers a write too, whose
/// value is never re-examined. Every other interference resolves the operation
/// deterministically within `budget + 1` attempts: a quiet attempt completes
/// with success, and a write of anything else completes with failure at the
/// next linked load.
pub proof fn lemma_cas_run_gives_up_iff(
    value: usize,
    current: usize,
    new: usize,
    interference: Seq<Option<usize>>,
    budget: nat,
)
    ensures
        (cas_run(value, current, new, interference, budget).1 is None) <==> (value == current
            && interference.len() > budget && (forall|t: int|
            0 <= t < budget ==> interference[t] == Some(current)) && interference[budget as int]
            is Some),
    decreases budget,
{
    if value != current {
    } else if interference.len() == 0 || interference[0] is None {
    } else if budget == 0 {
    } else {
        let w = interference[0]->Some_0;
        let d = interference.drop_first();
        lemma_cas_run_gives_up_iff(w, current, new, d, (budget - 1) as nat);
        if cas_run(value, current, new, interference, budget).1 is None {
            assert(w == current && d.len() > budget - 1 && (forall|t: int|
                0 <= t < budget - 1 ==> d[t] == Some(current)) && d[budget - 1] is Some);
            assert forall|t: int| 0 <= t < budget implies interference[t] == Some(current) by {
                if t > 0 {
                    assert(d[t - 1] == Some(current));
                    assert(d[t - 1] == interference[t]);
                }
            }
            assert(interference[budget as int] == d[budget - 1]);
        }
        if interference.len() > budget && (forall|t: int|
            0 <= t < budget ==> interference[t] == Some(current)) && interference[budget as int]
            is Some {
            assert forall|t: int| 0 <= t < budget - 1 implies d[t] == Some(current) by {
                assert(interference[t + 1] == Some(current));
                assert(d[t] == interference[t + 1]);
            }
            assert(d[budget - 1] == interference[budget as int]);
            assert(cas_run(w, current, new, d, (budget - 1) as nat).1 is None);
        }
    }
}

} // verus!
