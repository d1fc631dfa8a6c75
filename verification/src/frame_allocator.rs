//! Sizing the bitmaps of the physical frame allocator.
//!
//! At start-up the allocator keeps two bitmaps of 64-bit words, one for the
//! frames handed out and one for the reserved frames, laid out one after
//! the other. Each has one word for every eight bytes of physical address
//! space up to the end of the highest memory region. The bitmaps are placed
//! in the first usable region large enough to hold both.

use vstd::prelude::*;

verus! {

/// What the allocator reads of a memory region.
#[derive(Clone, Copy, Debug)]
pub struct RegionSummary {
    /// The first physical address of the region.
    pub start: usize,
    /// The number of bytes in the region.
    pub len: usize,
    /// Whether the region may be used for allocation.
    pub usable: bool,
}

/// The size in bytes of a bitmap word.
pub const WORD_BYTES: usize = 8;

/// The highest end address of the regions `r` (0 when there are none).
pub open spec fn max_end(r: Seq<RegionSummary>) -> nat
    decreases r.len(),
{
    if r.len() == 0 {
        0
    } else {
        let m = max_end(r.drop_last());
        let e = (r.last().start + r.last().len) as nat;
        if e > m {
            e
        } else {
            m
        }
    }
}

/// Whether every region's end address fits in a `usize`.
pub open spec fn ends_fit(r: Seq<RegionSummary>) -> bool {
    forall|i: int| 0 <= i < r.len() ==> (#[trigger] r[i]).start + r[i].len <= usize::MAX
}

/// The number of words in each bitmap for the regions `r`.
pub open spec fn array_len_of(r: Seq<RegionSummary>) -> nat {
    max_end(r) / 8
}

/// Where the two bitmaps go: the number of words in each, the offset of
/// the second from the first, and the bytes both take.
#[derive(Clone, Copy, Debug, PartialEq, Eq, Structural)]
pub struct BitmapLayout {
    pub array_len: usize,
    pub reserved_offset: usize,
    pub size: usize,
}

/// The highest end address of the regions.
pub fn highest_end(regions: &[RegionSummary]) -> (r: usize)
    requires
        ends_fit(regions@),
    ensures
        r == max_end(regions@),
{
    let mut m: usize = 0;
    let mut i: usize = 0;
    while i < regions.len()
        invariant
            i <= regions@.len(),
            ends_fit(regions@),
            m == max_end(regions@.take(i as int)),
        decreases regions@.len() - i,
    {
        proof {
            assert(regions@.take(i + 1).drop_last() =~= regions@.take(i as int));
            assert(regions@.take(i + 1).last() == regions@[i as int]);
        }
        let e = regions[i].start + regions[i].len;
        if e > m {
            m = e;
        }
        i = i + 1;
    }
    proof {
        assert(regions@.take(regions@.len() as int) =~= regions@);
    }
    m
}

/// The layout of the two bitmaps for the regions. Both must fit in
/// `isize::MAX` bytes, as a memory layout must.
pub fn bitmap_layout(regions: &[RegionSummary]) -> (r: BitmapLayout)
    requires
        ends_fit(regions@),
        16 * array_len_of(regions@) <= isize::MAX,
    ensures
        r.array_len == array_len_of(regions@),
        r.reserved_offset == 8 * r.array_len,
        r.size == 16 * r.array_len,
{
    let end = highest_end(regions);
    let array_len = end / WORD_BYTES;
    let reserved_offset = 8 * array_len;
    let size = reserved_offset + reserved_offset;
    BitmapLayout { array_len, reserved_offset, size }
}

/// The index of the first usable region of at least `size` bytes.
pub fn first_large_region(regions: &[RegionSummary], size: usize) -> (r: Option<usize>)
    ensures
        match r {
            Some(i) => i < regions@.len() && regions@[i as int].usable && regions@[i as int].len >= size
                && forall|j: int| 0 <= j < i ==> !((#[trigger] regions@[j]).usable && regions@[j].len >= size),
            None => forall|j: int| 0 <= j < regions@.len() ==> !((#[trigger] regions@[j]).usable && regions@[j].len >= size),
        },
{
    let mut i: usize = 0;
    while i < regions.len()
        invariant
            i <= regions@.len(),
            forall|j: int| 0 <= j < i ==> !((#[trigger] regions@[j]).usable && regions@[j].len >= size),
        decreases regions@.len() - i,
    {
        if regions[i].usable && regions[i].len >= size {
            return Some(i);
        }
        i = i + 1;
    }
    None
}

/// Every region ends at or below the highest end address.
pub proof fn lemma_max_end_bounds(r: Seq<RegionSummary>)
    ensures
        forall|i: int| 0 <= i < r.len() ==> (#[trigger] r[i]).start + r[i].len <= max_end(r),
    decreases r.len(),
{
    if r.len() > 0 {
        lemma_max_end_bounds(r.drop_last());
        assert forall|i: int| 0 <= i < r.len() implies (#[trigger] r[i]).start + r[i].len <= max_end(r) by {
            if i < r.len() - 1 {
                assert(r[i] == r.drop_last()[i]);
            }
        }
    }
}

} // verus!
