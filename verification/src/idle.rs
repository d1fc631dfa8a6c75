//! Which CPUs are idle, one bit per CPU.
//!
//! The bits live in a small array of 64-bit words: CPU `c` is bit `c % 64`
//! of word `c / 64`. The array has `u8::MAX / 64` words, so CPUs numbered
//! `IDLE_CPUS` and above have no bit.

use vstd::prelude::*;

verus! {

/// The number of words in the bitmap.
pub const IDLE_WORDS: usize = 3;

/// The number of CPUs that have a bit.
pub const IDLE_CPUS: u8 = 192;

/// Bit `k` of `w`.
pub open spec fn bit_of(w: u64, k: u64) -> bool {
    (w >> k) & 1u64 == 1u64
}

/// `w` with bit `k` set.
pub open spec fn set_bit(w: u64, k: u64) -> u64 {
    w | (1u64 << k)
}

/// `w` with bit `k` flipped.
pub open spec fn flip_bit(w: u64, k: u64) -> u64 {
    w ^ (1u64 << k)
}

/// `w` with bit `k` cleared.
pub open spec fn clear_bit(w: u64, k: u64) -> u64 {
    w & !(1u64 << k)
}

proof fn lemma_bit_ops(w: u64, k: u64, j: u64)
    requires
        k < 64,
        j < 64,
    ensures
        bit_of(set_bit(w, k), j) == (j == k || bit_of(w, j)),
        bit_of(clear_bit(w, k), j) == (j != k && bit_of(w, j)),
        bit_of(flip_bit(w, k), j) == (if j == k { !bit_of(w, j) } else { bit_of(w, j) }),
{
    assert(bit_of(set_bit(w, k), j) == (j == k || bit_of(w, j))) by (bit_vector)
        requires
            k < 64,
            j < 64,
    ;
    assert(bit_of(clear_bit(w, k), j) == (j != k && bit_of(w, j))) by (bit_vector)
        requires
            k < 64,
            j < 64,
    ;
    assert(bit_of(flip_bit(w, k), j) == (if j == k { !bit_of(w, j) } else { bit_of(w, j) }))
        by (bit_vector)
        requires
            k < 64,
            j < 64,
    ;
}

/// One idle bit per CPU.
#[derive(Clone, Copy, Debug)]
pub struct IdleBitmap {
    words: [u64; 3],
}

impl IdleBitmap {
    /// The words of the bitmap.
    pub closed spec fn spec_words(&self) -> Seq<u64> {
        self.words@
    }

    /// Whether CPU `cpu` is marked idle.
    pub open spec fn marked(&self, cpu: u8) -> bool {
        bit_of(self.spec_words()[(cpu / 64) as int], (cpu % 64) as u64)
    }

    /// A bitmap in which no CPU is idle.
    pub fn new() -> (r: IdleBitmap)
        ensures
            r.spec_words().len() == IDLE_WORDS,
            forall|c: u8| c < IDLE_CPUS ==> !#[trigger] r.marked(c),
    {
        let r = IdleBitmap { words: [0u64, 0u64, 0u64] };
        assert forall|c: u8| c < IDLE_CPUS implies !#[trigger] r.marked(c) by {
            let k = (c % 64) as u64;
            assert(r.spec_words()[(c / 64) as int] == 0);
            assert(!bit_of(0u64, k)) by (bit_vector);
        }
        r
    }

    /// Marks CPU `cpu` idle (an atomic "or" of its bit).
    pub fn set_idle(&mut self, cpu: u8)
        requires
            old(self).spec_words().len() == IDLE_WORDS,
            cpu < IDLE_CPUS,
        ensures
            final(self).spec_words().len() == IDLE_WORDS,
            forall|c: u8| c < IDLE_CPUS ==> #[trigger] final(self).marked(c) == (c == cpu || old(self).marked(c)),
    {
        let index = (cpu / 64) as usize;
        let k = (cpu % 64) as u64;
        let w = self.words[index];
        self.words[index] = w | (1u64 << k);
        proof {
            self.lemma_update(*old(self), cpu, set_bit(w, k));
            assert forall|c: u8| c < IDLE_CPUS implies #[trigger] self.marked(c) == (c == cpu || old(self).marked(c)) by {
                lemma_bit_ops(w, k, (c % 64) as u64);
            }
        }
    }

    /// Flips the idle bit of CPU `cpu` (an atomic "xor" of its bit).
    pub fn toggle_idle(&mut self, cpu: u8)
        requires
            old(self).spec_words().len() == IDLE_WORDS,
            cpu < IDLE_CPUS,
        ensures
            final(self).spec_words().len() == IDLE_WORDS,
            forall|c: u8| c < IDLE_CPUS ==> #[trigger] final(self).marked(c) == (if c == cpu {
                !old(self).marked(c)
            } else {
                old(self).marked(c)
            }),
    {
        let index = (cpu / 64) as usize;
        let k = (cpu % 64) as u64;
        let w = self.words[index];
        self.words[index] = w ^ (1u64 << k);
        proof {
            self.lemma_update(*old(self), cpu, flip_bit(w, k));
            assert forall|c: u8| c < IDLE_CPUS implies #[trigger] self.marked(c) == (if c == cpu {
                !old(self).marked(c)
            } else {
                old(self).marked(c)
            }) by {
                lemma_bit_ops(w, k, (c % 64) as u64);
            }
        }
    }

    /// Clears the idle bit of CPU `cpu` (an atomic "and" with the other
    /// bits) and returns whether it was set.
    pub fn clear_idle(&mut self, cpu: u8) -> (was_idle: bool)
        requires
            old(self).spec_words().len() == IDLE_WORDS,
            cpu < IDLE_CPUS,
        ensures
            was_idle == old(self).marked(cpu),
            final(self).spec_words().len() == IDLE_WORDS,
            forall|c: u8| c < IDLE_CPUS ==> #[trigger] final(self).marked(c) == (c != cpu && old(self).marked(c)),
    {
        let index = (cpu / 64) as usize;
        let k = (cpu % 64) as u64;
        let w = self.words[index];
        self.words[index] = w & !(1u64 << k);
        proof {
            self.lemma_update(*old(self), cpu, clear_bit(w, k));
            assert forall|c: u8| c < IDLE_CPUS implies #[trigger] self.marked(c) == (c != cpu && old(self).marked(c)) by {
                lemma_bit_ops(w, k, (c % 64) as u64);
            }
        }
        (w >> k) & 1 == 1
    }

    /// Whether the word holding the bit of CPU `cpu`, shifted down to that
    /// bit, equals 1, i.e. the bit is set and no higher bit of the word is.
    pub fn bit_is_top(&self, cpu: u8) -> (r: bool)
        requires
            self.spec_words().len() == IDLE_WORDS,
            cpu < IDLE_CPUS,
        ensures
            r == (self.spec_words()[(cpu / 64) as int] >> ((cpu % 64) as u64) == 1u64),
    {
        self.words[(cpu / 64) as usize] >> ((cpu % 64) as u64) == 1
    }

    proof fn lemma_update(self, old_map: IdleBitmap, cpu: u8, w: u64)
        requires
            old_map.spec_words().len() == IDLE_WORDS,
            cpu < IDLE_CPUS,
            self.spec_words() == old_map.spec_words().update((cpu / 64) as int, w),
        ensures
            self.spec_words().len() == IDLE_WORDS,
            forall|c: u8| c < IDLE_CPUS && c / 64 != cpu / 64 ==> #[trigger] self.marked(c) == old_map.marked(c),
            forall|c: u8| c < IDLE_CPUS && c / 64 == cpu / 64 ==> #[trigger] self.marked(c) == bit_of(w, (c % 64) as u64),
    {
    }
}

/// Whether CPU `cpu` is marked idle in `bitmap`.
pub fn is_idle(bitmap: &IdleBitmap, cpu: u8) -> (r: bool)
    requires
        bitmap.spec_words().len() == IDLE_WORDS,
        cpu < IDLE_CPUS,
    ensures
        r == bitmap.marked(cpu),
{
    let index = (cpu / 64) as usize;
    let w = bitmap.words[index];
    (w >> ((cpu % 64) as u64)) & 1 == 1
}

/// Whether an idle CPU must stop halting: when its run queue holds a task,
/// or when it has no run queue. `queue_is_empty` is `None` when the CPU has
/// no run queue, else whether its run queue is empty.
pub fn needs_rescheduling(queue_is_empty: Option<bool>) -> (r: bool)
    ensures
        r == match queue_is_empty {
            Some(empty) => !empty,
            None => true,
        },
{
    match queue_is_empty {
        Some(empty) => !empty,
        None => true,
    }
}

} // verus!
