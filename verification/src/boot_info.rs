//! What the boot loader tells the kernel: memory areas, the kernel's ELF
//! sections and the boot modules.

use vstd::prelude::*;

verus! {

/// An area of physical memory.
pub trait MemoryArea {
    fn start(&self) -> usize;

    fn size(&self) -> usize;

    fn ty(&self) -> MemoryAreaType;
}

/// Whether a memory area may be used.
#[derive(Clone, Copy, Debug, Eq, Hash, PartialEq, Structural)]
pub enum MemoryAreaType {
    Available,
    Reserved,
}

/// An ELF section of the kernel image.
pub trait ElfSection {
    fn name(&self) -> &str;

    fn is_allocated(&self) -> bool;

    fn start(&self) -> usize;

    fn size(&self) -> usize;

    fn flags(&self) -> ElfSectionFlags;
}

/// The flags of an ELF section, as a set of bits.
#[derive(Clone, Copy, Debug, Eq, Hash, PartialEq, Structural)]
pub struct ElfSectionFlags {
    bits: u64,
}

/// The section holds data that is writable while the program runs.
pub const WRITABLE: u64 = 0x1;
/// The section occupies memory while the program runs.
pub const ALLOCATED: u64 = 0x2;
/// The section holds executable machine instructions.
pub const EXECUTABLE: u64 = 0x4;

impl ElfSectionFlags {
    /// The raw bits.
    pub closed spec fn spec_bits(&self) -> u64 {
        self.bits
    }

    /// The flags of `bits` that have a meaning; the others are dropped.
    pub fn from_bits_truncate(bits: u64) -> (r: ElfSectionFlags)
        ensures
            r.spec_bits() == bits & (WRITABLE | ALLOCATED | EXECUTABLE),
    {
        ElfSectionFlags { bits: bits & (WRITABLE | ALLOCATED | EXECUTABLE) }
    }

    /// The raw bits.
    pub fn bits(&self) -> (r: u64)
        ensures
            r == self.spec_bits(),
    {
        self.bits
    }

    /// Whether every flag of `flags` is set.
    pub fn contains(&self, flags: u64) -> (r: bool)
        ensures
            r == (self.spec_bits() & flags == flags),
    {
        self.bits & flags == flags
    }
}

/// A module the boot loader loaded.
pub trait Module {
    fn name(&self) -> Result<&str, &'static str>;

    fn start(&self) -> usize;

    fn end(&self) -> usize;
}

} // verus!
