//! Layout of the CPU-local storage (CLS) region.
//!
//! Every CPU gets one page holding a copy of the CLS image. Variables are
//! placed one after the other in that image, each at an offset aligned as it
//! asks; the image records their initial bytes.

use vstd::prelude::*;

verus! {

/// Implemented only by the guards of this library's family: it keeps
/// [`CpuAtomicGuard`] from being implemented elsewhere.
pub trait Sealed {}

/// A guard that makes code atomic with respect to the current CPU (one that
/// holds interrupts or preemption off).
pub trait CpuAtomicGuard: Sealed {}

/// The size in bytes of the CLS region of a CPU.
pub const CLS_REGION_SIZE: usize = 4096;

/// The smallest multiple of `m` that is at least `x` (for `m > 0`).
pub open spec fn next_multiple_of(x: int, m: int) -> int {
    if x % m == 0 {
        x
    } else {
        x + (m - x % m)
    }
}

/// `n` zero bytes.
pub open spec fn zeros(n: nat) -> Seq<u8> {
    Seq::new(n, |i: int| 0u8)
}

/// The CLS image built so far and how much of the region it uses.
#[derive(Clone, Debug)]
pub struct ClsImage {
    image: Vec<u8>,
    used: usize,
}

impl ClsImage {
    /// The initial bytes of the image.
    pub closed spec fn spec_image(&self) -> Seq<u8> {
        self.image@
    }

    /// How many bytes of the region are taken.
    pub closed spec fn spec_used(&self) -> nat {
        self.used as nat
    }

    /// Nothing beyond the region is taken.
    pub open spec fn wf(&self) -> bool {
        self.spec_used() <= CLS_REGION_SIZE
    }

    /// An empty image.
    pub fn new() -> (r: ClsImage)
        ensures
            r.wf(),
            r.spec_used() == 0,
            r.spec_image() == Seq::<u8>::empty(),
    {
        ClsImage { image: Vec::new(), used: 0 }
    }

    /// The initial bytes of the image.
    pub fn image(&self) -> (r: &[u8])
        ensures
            r@ == self.spec_image(),
    {
        self.image.as_slice()
    }

    /// How many bytes of the region are taken.
    pub fn used(&self) -> (r: usize)
        ensures
            r == self.spec_used(),
    {
        self.used
    }
}

/// The smallest multiple of `m` that is at least `x`.
pub fn next_multiple(x: usize, m: usize) -> (r: usize)
    requires
        m > 0,
        next_multiple_of(x as int, m as int) <= usize::MAX,
    ensures
        r == next_multiple_of(x as int, m as int),
{
    let rem = x % m;
    if rem == 0 {
        x
    } else {
        x + (m - rem)
    }
}

/// Places a variable of `len` bytes, aligned to `alignment`, after those
/// already placed, appends `image` (its initial bytes) to the CLS image
/// behind the padding the alignment needs, and returns the variable's
/// offset in the region.
///
/// The variable must fit in the region.
pub fn allocate(state: &mut ClsImage, len: usize, alignment: usize, image: &[u8]) -> (offset: usize)
    requires
        old(state).wf(),
        alignment > 0,
        next_multiple_of(old(state).spec_used() as int, alignment as int) + len <= CLS_REGION_SIZE,
    ensures
        offset == next_multiple_of(old(state).spec_used() as int, alignment as int),
        final(state).wf(),
        final(state).spec_used() == offset + len,
        final(state).spec_image() == old(state).spec_image() + zeros(
            (offset - old(state).spec_used()) as nat,
        ) + image@,
{
    let offset = next_multiple(state.used, alignment);
    let num_alignment_bytes = offset - state.used;
    let ghost start = state.image@;
    let mut i: usize = 0;
    while i < num_alignment_bytes
        invariant
            i <= num_alignment_bytes,
            state.image@ == start + zeros(i as nat),
            state.used == old(state).used,
            start == old(state).image@,
        decreases num_alignment_bytes - i,
    {
        state.image.push(0);
        i = i + 1;
        proof {
            assert(state.image@ =~= start + zeros(i as nat));
        }
    }
    let ghost padded = state.image@;
    let mut j: usize = 0;
    while j < image.len()
        invariant
            j <= image@.len(),
            state.image@ == padded + image@.take(j as int),
            state.used == old(state).used,
        decreases image@.len() - j,
    {
        state.image.push(image[j]);
        j = j + 1;
        proof {
            assert(state.image@ =~= padded + image@.take(j as int));
        }
    }
    proof {
        assert(image@.take(image@.len() as int) =~= image@);
    }
    state.used = offset + len;
    offset
}

/// Each variable's offset is a multiple of its alignment, and variables
/// placed one after the other never overlap: the second starts at or after
/// the end of the first.
pub proof fn lemma_allocations_aligned_and_disjoint(
    used: nat,
    len1: nat,
    align1: nat,
    len2: nat,
    align2: nat,
)
    requires
        align1 > 0,
        align2 > 0,
    ensures
        ({
            let off1 = next_multiple_of(used as int, align1 as int);
            let off2 = next_multiple_of(off1 + len1, align2 as int);
            &&& off1 % (align1 as int) == 0
            &&& off2 % (align2 as int) == 0
            &&& used <= off1 < used + align1
            &&& off1 + len1 <= off2
        }),
{
    let off1 = next_multiple_of(used as int, align1 as int);
    lemma_next_multiple_of(used as int, align1 as int);
    lemma_next_multiple_of(off1 + len1, align2 as int);
}

/// `next_multiple_of(x, m)` is a multiple of `m` in `x .. x + m`.
pub proof fn lemma_next_multiple_of(x: int, m: int)
    requires
        x >= 0,
        m > 0,
    ensures
        next_multiple_of(x, m) % m == 0,
        x <= next_multiple_of(x, m) < x + m,
{
    vstd::arithmetic::div_mod::lemma_fundamental_div_mod(x, m);
    vstd::arithmetic::div_mod::lemma_mod_bound(x, m);
    let q = x / m;
    if x % m == 0 {
    } else {
        assert(next_multiple_of(x, m) == (q + 1) * m) by (nonlinear_arith)
            requires
                x == m * q + x % m,
                next_multiple_of(x, m) == x + (m - x % m),
        ;
        vstd::arithmetic::div_mod::lemma_mod_multiples_basic(q + 1, m);
    }
}

} // verus!
