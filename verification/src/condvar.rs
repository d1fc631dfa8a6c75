//! The waiter count of a condition variable.
//!
//! A waiting task adds itself to the count; notifying one waiter takes one
//! off the count (and the caller then releases the semaphore once), and
//! notifying all takes the whole count (and the caller releases that many
//! times). The count is a machine word that wraps around, as an atomic
//! counter does.

use vstd::prelude::*;

verus! {

/// The waiter count of a condition variable.
#[derive(Clone, Copy, Debug)]
pub struct CondvarCounter {
    waiters: usize,
}

impl CondvarCounter {
    /// The number of waiters.
    pub closed spec fn spec_waiters(&self) -> nat {
        self.waiters as nat
    }

    /// A counter with no waiters.
    pub fn new() -> (r: CondvarCounter)
        ensures
            r.spec_waiters() == 0,
    {
        CondvarCounter { waiters: 0 }
    }

    /// Counts one more waiter (wrapping around at the word size).
    pub fn wait(&mut self)
        ensures
            final(self).spec_waiters() == (old(self).spec_waiters() + 1) % (usize::MAX as nat + 1),
            final(self).spec_waiters() == after_waits(old(self).spec_waiters(), 1),
    {
        let ghost w = self.waiters as nat;
        self.waiters = self.waiters.wrapping_add(1);
        proof {
            let m = usize::MAX as nat + 1;
            if w + 1 < m {
                vstd::arithmetic::div_mod::lemma_small_mod(w + 1, m);
            } else {
                vstd::arithmetic::div_mod::lemma_mod_self_0(m as int);
            }
            assert(after_waits(w, 0) == w);
            assert(after_waits(w, 1) == (w + 1) % m);
        }
    }

    /// Takes one waiter off the count, if there is one, and returns whether
    /// there was (the semaphore is released once if so).
    pub fn notify_one(&mut self) -> (released: bool)
        ensures
            released == (old(self).spec_waiters() > 0),
            final(self).spec_waiters() == if released {
                (old(self).spec_waiters() - 1) as nat
            } else {
                old(self).spec_waiters()
            },
    {
        match one_fewer(self.waiters) {
            Some(w) => {
                self.waiters = w;
                true
            },
            None => false,
        }
    }

    /// Takes every waiter off the count and returns how many there were
    /// (the semaphore is released that many times).
    pub fn notify_all(&mut self) -> (released: usize)
        ensures
            released == old(self).spec_waiters(),
            final(self).spec_waiters() == 0,
    {
        let counter = self.waiters;
        self.waiters = 0;
        counter
    }
}

/// The count after one waiter leaves, if any is there.
pub fn one_fewer(waiters: usize) -> (r: Option<usize>)
    ensures
        waiters > 0 ==> r == Some((waiters - 1) as usize),
        waiters == 0 ==> r is None,
{
    if waiters > 0 {
        Some(waiters - 1)
    } else {
        None
    }
}

/// The count after `k` calls of [`CondvarCounter::wait`] on a count of `n`.
pub open spec fn after_waits(n: nat, k: nat) -> nat
    decreases k,
{
    if k == 0 {
        n
    } else {
        (after_waits(n, (k - 1) as nat) + 1) % (usize::MAX as nat + 1)
    }
}

/// Each waiter that is counted is released exactly once: `k` waits on a
/// count of `n` (without wrapping around) leave `n + k` waiters, which is
/// what notifying all then releases; notifying one releases one of them.
pub proof fn lemma_waits_then_notify_all(n: nat, k: nat)
    requires
        n + k <= usize::MAX,
    ensures
        after_waits(n, k) == n + k,
        k > 0 ==> after_waits(n, k) > 0,
    decreases k,
{
    if k > 0 {
        lemma_waits_then_notify_all(n, (k - 1) as nat);
        vstd::arithmetic::div_mod::lemma_small_mod(n + k, usize::MAX as nat + 1);
    }
}

} // verus!
