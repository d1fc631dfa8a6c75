//! Loading the segments of an ELF executable: which memory span the
//! loadable segments cover, how a segment's bytes are laid out in memory,
//! which sections a segment holds, with which page flags it is mapped, and
//! how many relocation entries a relocation table holds.
//!
//! The ELF file itself is read by the `xmas-elf` crate.

use vstd::prelude::*;
use xmas_elf::dynamic::Tag;
use xmas_elf::program::{SegmentData, Type};

verus! {

/// The kind of a program header.
#[derive(Clone, Copy, Debug, PartialEq, Eq, Structural)]
pub enum SegmentKind {
    /// A loadable segment.
    Load,
    /// Dynamic linking information.
    Dynamic,
    /// The path of an interpreter.
    Interp,
    /// Reserved.
    ShLib,
    /// The thread-local storage template.
    Tls,
    /// Any other valid kind.
    Other,
    /// A value that is no program header kind.
    Invalid,
}

/// The number that stands for a segment kind.
pub open spec fn kind_code(k: SegmentKind) -> u8 {
    match k {
        SegmentKind::Load => 1,
        SegmentKind::Dynamic => 2,
        SegmentKind::Interp => 3,
        SegmentKind::ShLib => 5,
        SegmentKind::Tls => 7,
        SegmentKind::Other => 0,
        SegmentKind::Invalid => 255,
    }
}

/// What the loader reads of a program header.
#[derive(Clone, Copy, Debug)]
pub struct SegmentHeader {
    pub kind: SegmentKind,
    pub virtual_addr: u64,
    pub mem_size: u64,
    pub file_size: u64,
    pub offset: u64,
    pub flags: u32,
}

impl View for SegmentHeader {
    type V = (u8, u64, u64, u64, u64, u32);

    open spec fn view(&self) -> (u8, u64, u64, u64, u64, u32) {
        (kind_code(self.kind), self.virtual_addr, self.mem_size, self.file_size, self.offset, self.flags)
    }
}

/// The program headers that the ELF file `bytes` holds, as `xmas-elf`
/// reads them (`None` where it refuses the file).
pub uninterp spec fn elf_program_headers(bytes: Seq<u8>) -> Option<Seq<(u8, u64, u64, u64, u64, u32)>>;

/// The views of a list of headers.
pub open spec fn headers_view(v: Seq<SegmentHeader>) -> Seq<(u8, u64, u64, u64, u64, u32)> {
    v.map_values(|h: SegmentHeader| h@)
}

/// The unsigned number held little-endian in the `n` bytes of `b` from
/// `at` on.
pub open spec fn le_uint(b: Seq<u8>, at: int, n: nat) -> nat
    decreases n,
{
    if n == 0 {
        0
    } else {
        b[at] as nat + 256 * le_uint(b, at + 1, (n - 1) as nat)
    }
}

/// 256 to the power `n`.
pub open spec fn pow256(n: nat) -> nat
    decreases n,
{
    if n == 0 {
        1
    } else {
        256 * pow256((n - 1) as nat)
    }
}

/// Whether a program header table at `offset` with `count` entries of
/// `entry_size` bytes can be walked in a file of `len` bytes: `xmas-elf`
/// walks no table whose offset, entry size or count is zero; otherwise
/// each entry must hold at least `min_entry` bytes, lie within the file
/// and start at a multiple of `align` from the file's start.
pub open spec fn table_fits(offset: nat, entry_size: nat, count: nat, min_entry: nat, align: nat, len: nat) -> bool {
    offset == 0 || entry_size == 0 || count == 0 || (entry_size >= min_entry && offset % align == 0
        && entry_size % align == 0 && offset + count * entry_size <= len)
}

/// Whether `xmas-elf` reads the program headers of the file `b` without
/// reading past its end: for a file it accepts as a 64-bit ELF file (its
/// header fields read little-endian), the table of 56-byte entries fits;
/// for a 32-bit one, the table of 32-byte entries fits.
pub open spec fn program_table_fits(b: Seq<u8>) -> bool {
    let magic = b.len() >= 16 && b[0] == 0x7f && b[1] == 0x45 && b[2] == 0x4c && b[3] == 0x46;
    &&& (magic && b[4] == 2 && b.len() >= 64) ==> table_fits(
        le_uint(b, 32, 8),
        le_uint(b, 54, 2),
        le_uint(b, 56, 2),
        56,
        8,
        b.len(),
    )
    &&& (magic && b[4] == 1 && b.len() >= 52) ==> table_fits(
        le_uint(b, 28, 4),
        le_uint(b, 42, 2),
        le_uint(b, 44, 2),
        32,
        4,
        b.len(),
    )
}

/// Whether a section header table at `offset` with `count` entries of
/// `entry_size` bytes can be walked in a file of `len` bytes: `xmas-elf`
/// walks every entry of a non-empty table, so each must hold at least
/// `min_entry` bytes, lie within the file and start at a multiple of
/// `align`, and the count must stay below the reserved indices (0xff00).
pub open spec fn section_table_walkable(offset: nat, entry_size: nat, count: nat, min_entry: nat, align: nat, len: nat) -> bool {
    count == 0 || (count <= 0xff00 && entry_size >= min_entry && offset % align == 0 && entry_size
        % align == 0 && offset + count * entry_size <= len)
}

/// Whether `xmas-elf` reads the section headers of the file `b` without
/// reading past its end or asserting: for a file it accepts as a 64-bit
/// ELF file, the table of 64-byte entries can be walked; for a 32-bit one,
/// the table of 40-byte entries.
pub open spec fn section_table_fits(b: Seq<u8>) -> bool {
    let magic = b.len() >= 16 && b[0] == 0x7f && b[1] == 0x45 && b[2] == 0x4c && b[3] == 0x46;
    &&& (magic && b[4] == 2 && b.len() >= 64) ==> section_table_walkable(
        le_uint(b, 40, 8),
        le_uint(b, 58, 2),
        le_uint(b, 60, 2),
        64,
        8,
        b.len(),
    )
    &&& (magic && b[4] == 1 && b.len() >= 52) ==> section_table_walkable(
        le_uint(b, 32, 4),
        le_uint(b, 46, 2),
        le_uint(b, 48, 2),
        40,
        4,
        b.len(),
    )
}

proof fn lemma_le_uint_bound(b: Seq<u8>, at: int, n: nat)
    ensures
        le_uint(b, at, n) < pow256(n),
    decreases n,
{
    if n > 0 {
        lemma_le_uint_bound(b, at + 1, (n - 1) as nat);
    }
}

/// The little-endian number in `b[at..at + n]`, for `n` at most 8.
fn read_le(b: &[u8], at: usize, n: usize) -> (r: u64)
    requires
        n <= 8,
        at + n <= b@.len(),
    ensures
        r == le_uint(b@, at as int, n as nat),
        r < pow256(n as nat),
{
    proof {
        lemma_le_uint_bound(b@, at as int, n as nat);
    }
    let mut v: u64 = 0;
    let mut k: usize = n;
    proof {
        assert(pow256(8) == 0x1_0000_0000_0000_0000) by {
            reveal_with_fuel(pow256, 9);
        }
    }
    while k > 0
        invariant
            k <= n <= 8,
            at + n <= b.len(),
            v == le_uint(b@, at + k, (n - k) as nat),
            pow256(8) == 0x1_0000_0000_0000_0000,
        decreases k,
    {
        k = k - 1;
        proof {
            lemma_le_uint_bound(b@, at + k + 1, (n - k - 1) as nat);
            lemma_pow256_mono((n - k - 1) as nat, 7);
            assert(v < pow256(7));
            assert(pow256(8) == 256 * pow256(7));
            assert(256 * v + 255 < 256 * pow256(7));
        }
        let i = at + k;
        v = (b[i] as u64) + 256 * v;
    }
    v
}

proof fn lemma_pow256_mono(a: nat, b: nat)
    requires
        a <= b,
    ensures
        pow256(a) <= pow256(b),
    decreases b,
{
    if a < b {
        lemma_pow256_mono(a, (b - 1) as nat);
    }
}

/// Whether `xmas-elf` can read the program headers of `bytes` without
/// reading past its end (see [`program_table_fits`]).
pub fn check_program_table(bytes: &[u8]) -> (r: bool)
    ensures
        r == program_table_fits(bytes@),
{
    proof {
        assert(pow256(2) == 0x10000) by {
            reveal_with_fuel(pow256, 3);
        }
    }
    let len = bytes.len();
    let magic = len >= 16 && bytes[0] == 0x7f && bytes[1] == 0x45 && bytes[2] == 0x4c && bytes[3] == 0x46;
    if magic && bytes[4] == 2 && len >= 64 {
        let off = read_le(bytes, 32, 8);
        let size = read_le(bytes, 54, 2) as u64;
        let count = read_le(bytes, 56, 2) as u64;
        table_fits_check(off, size, count, 56, 8, len as u64)
    } else if magic && bytes[4] == 1 && len >= 52 {
        let off = read_le(bytes, 28, 4);
        let size = read_le(bytes, 42, 2);
        let count = read_le(bytes, 44, 2);
        table_fits_check(off, size, count, 32, 4, len as u64)
    } else {
        true
    }
}

/// Whether `xmas-elf` can read the section headers of `bytes` without
/// reading past its end (see [`section_table_fits`]).
pub fn check_section_table(bytes: &[u8]) -> (r: bool)
    ensures
        r == section_table_fits(bytes@),
{
    proof {
        assert(pow256(2) == 0x10000) by {
            reveal_with_fuel(pow256, 3);
        }
    }
    let len = bytes.len();
    let magic = len >= 16 && bytes[0] == 0x7f && bytes[1] == 0x45 && bytes[2] == 0x4c && bytes[3] == 0x46;
    if magic && bytes[4] == 2 && len >= 64 {
        let off = read_le(bytes, 40, 8);
        let size = read_le(bytes, 58, 2);
        let count = read_le(bytes, 60, 2);
        section_table_check(off, size, count, 64, 8, len as u64)
    } else if magic && bytes[4] == 1 && len >= 52 {
        let off = read_le(bytes, 32, 4);
        let size = read_le(bytes, 46, 2);
        let count = read_le(bytes, 48, 2);
        section_table_check(off, size, count, 40, 4, len as u64)
    } else {
        true
    }
}

fn section_table_check(offset: u64, entry_size: u64, count: u64, min_entry: u64, align: u64, len: u64) -> (r: bool)
    requires
        align > 0,
        entry_size < 0x10000,
        count < 0x10000,
    ensures
        r == section_table_walkable(offset as nat, entry_size as nat, count as nat, min_entry as nat, align as nat, len as nat),
{
    if count == 0 {
        return true;
    }
    proof {
        assert(count * entry_size < 0x1_0000_0000) by (nonlinear_arith)
            requires
                entry_size < 0x10000,
                count < 0x10000,
        ;
    }
    let span = count * entry_size;
    count <= 0xff00 && entry_size >= min_entry && offset % align == 0 && entry_size % align == 0
        && offset <= len && span <= len - offset
}

fn table_fits_check(offset: u64, entry_size: u64, count: u64, min_entry: u64, align: u64, len: u64) -> (r: bool)
    requires
        align > 0,
        entry_size < 0x10000,
        count < 0x10000,
    ensures
        r == table_fits(offset as nat, entry_size as nat, count as nat, min_entry as nat, align as nat, len as nat),
{
    if offset == 0 || entry_size == 0 || count == 0 {
        return true;
    }
    proof {
        assert(count * entry_size < 0x1_0000_0000) by (nonlinear_arith)
            requires
                entry_size < 0x10000,
                count < 0x10000,
        ;
    }
    let span = count * entry_size;
    entry_size >= min_entry && offset % align == 0 && entry_size % align == 0 && offset <= len && span <= len - offset
}

/// The byte `j` (0 for the lowest) of the 64-bit word `w`.
pub open spec fn word_byte(w: u64, j: u64) -> u8 {
    ((w >> (8 * j) as u64) & 0xff) as u8
}

/// The eight bytes of `w`, lowest first.
pub open spec fn word_bytes(w: u64) -> Seq<u8> {
    seq![
        word_byte(w, 0),
        word_byte(w, 1),
        word_byte(w, 2),
        word_byte(w, 3),
        word_byte(w, 4),
        word_byte(w, 5),
        word_byte(w, 6),
        word_byte(w, 7)
    ]
}

/// The bytes of the words `ws`, each word lowest byte first: the memory of
/// `ws` on a little-endian machine.
pub open spec fn le_bytes_of_words(ws: Seq<u64>) -> Seq<u8>
    decreases ws.len(),
{
    if ws.len() == 0 {
        Seq::empty()
    } else {
        le_bytes_of_words(ws.drop_last()) + word_bytes(ws.last())
    }
}

/// The first `n` bytes of `s` followed by zeros where `s` runs out.
pub open spec fn zero_padded(s: Seq<u8>, n: nat) -> Seq<u8> {
    Seq::new(n, |i: int| if i < s.len() { s[i] } else { 0u8 })
}

/// The entry point field of the ELF header of `b`: 64 bits wide in a
/// 64-bit file, 32 bits wide otherwise.
pub open spec fn elf_entry_field(b: Seq<u8>) -> nat {
    if b[4] == 2 {
        le_uint(b, 24, 8)
    } else {
        le_uint(b, 24, 4)
    }
}

proof fn lemma_word_of_bytes(b0: u64, b1: u64, b2: u64, b3: u64, b4: u64, b5: u64, b6: u64, b7: u64)
    by (bit_vector)
    requires
        b0 < 256,
        b1 < 256,
        b2 < 256,
        b3 < 256,
        b4 < 256,
        b5 < 256,
        b6 < 256,
        b7 < 256,
    ensures
        ({
            let w = b0 | (b1 << 8u64) | (b2 << 16u64) | (b3 << 24u64) | (b4 << 32u64) | (b5 << 40u64)
                | (b6 << 48u64) | (b7 << 56u64);
            &&& ((w >> 0u64) & 0xff) == b0
            &&& ((w >> 8u64) & 0xff) == b1
            &&& ((w >> 16u64) & 0xff) == b2
            &&& ((w >> 24u64) & 0xff) == b3
            &&& ((w >> 32u64) & 0xff) == b4
            &&& ((w >> 40u64) & 0xff) == b5
            &&& ((w >> 48u64) & 0xff) == b6
            &&& ((w >> 56u64) & 0xff) == b7
        }),
{
}

/// Byte `base + j` of `bytes`, or 0 past its end.
fn byte_or_zero(bytes: &[u8], base: usize, j: usize) -> (r: u64)
    requires
        base <= bytes@.len(),
    ensures
        r < 256,
        r == zero_padded(bytes@, (base + j + 1) as nat)[base + j],
{
    if j < bytes.len() - base {
        bytes[base + j] as u64
    } else {
        0
    }
}

/// The bytes of `bytes` packed into 64-bit words, lowest byte first, the
/// last word padded with zeros. A vector of words is aligned for any of
/// the header structures an ELF file holds.
fn words_of_bytes(bytes: &[u8]) -> (r: Vec<u64>)
    ensures
        bytes@.len() <= 8 * r@.len(),
        le_bytes_of_words(r@).take(bytes@.len() as int) == bytes@,
{
    let len = bytes.len();
    let n: usize = if len % 8 == 0 {
        len / 8
    } else {
        len / 8 + 1
    };
    let mut r: Vec<u64> = Vec::new();
    let mut k: usize = 0;
    proof {
        assert(le_bytes_of_words(r@) =~= zero_padded(bytes@, 0));
    }
    while k < n
        invariant
            len == bytes@.len(),
            8 * n >= len,
            8 * n < len + 8,
            k <= n,
            r@.len() == k,
            le_bytes_of_words(r@) == zero_padded(bytes@, (8 * k) as nat),
        decreases n - k,
    {
        let base = 8 * k;
        let b0 = byte_or_zero(bytes, base, 0);
        let b1 = byte_or_zero(bytes, base, 1);
        let b2 = byte_or_zero(bytes, base, 2);
        let b3 = byte_or_zero(bytes, base, 3);
        let b4 = byte_or_zero(bytes, base, 4);
        let b5 = byte_or_zero(bytes, base, 5);
        let b6 = byte_or_zero(bytes, base, 6);
        let b7 = byte_or_zero(bytes, base, 7);
        let w = b0 | (b1 << 8u64) | (b2 << 16u64) | (b3 << 24u64) | (b4 << 32u64) | (b5 << 40u64) | (b6
            << 48u64) | (b7 << 56u64);
        proof {
            lemma_word_of_bytes(b0, b1, b2, b3, b4, b5, b6, b7);
        }
        let ghost old_r = r@;
        r.push(w);
        proof {
            assert(r@.drop_last() =~= old_r);
            let p = zero_padded(bytes@, (8 * k + 8) as nat);
            assert(word_bytes(w) =~= p.subrange(8 * k as int, 8 * k + 8));
            assert(p =~= zero_padded(bytes@, (8 * k) as nat) + p.subrange(8 * k as int, 8 * k + 8));
        }
        k = k + 1;
    }
    proof {
        assert(le_bytes_of_words(r@).take(len as int) =~= bytes@);
    }
    r
}

/// Reads the file type, the entry point and the program headers of the
/// ELF file held in the first `len` bytes of `words`, with
/// `xmas_elf::ElfFile::new`, the header's `type_` and `entry_point` and
/// `ElfFile::program_iter`. The words are viewed as bytes with
/// `zerocopy::IntoBytes::as_bytes`, which gives their memory: on a
/// little-endian machine, as here, `le_bytes_of_words(words)`.
///
/// What is claimed: the file is refused exactly when `elf_program_headers`
/// is `None`, else the headers are `elf_program_headers(bytes)`, a function
/// of the bytes alone, the type is the 16-bit number at byte 16 of the file
/// and the entry point the number at byte 24 (64 bits wide in a 64-bit
/// file, 32 otherwise), read in the machine's byte order. `xmas-elf` slices
/// each header out of the bytes and panics where one lies past their end:
/// `requires` leaves those files out. It also asserts that each header
/// structure it reads is aligned in memory: the bytes start where a `u64`
/// starts, and `program_table_fits` keeps the table's entries at multiples
/// of their alignment from there. The program header iterator counts its
/// headers with a 16-bit index, so fewer than 0x10000 come out.
#[verifier::external_body]
fn read_elf(words: &[u64], len: usize) -> (r: Result<(u16, u64, Vec<SegmentHeader>), &'static str>)
    requires
        len <= 8 * words@.len(),
        program_table_fits(le_bytes_of_words(words@).take(len as int)),
    ensures
        r is Ok <==> elf_program_headers(le_bytes_of_words(words@).take(len as int)) is Some,
        r matches Ok((t, e, v)) ==> t == le_uint(le_bytes_of_words(words@).take(len as int), 16, 2)
            && e == elf_entry_field(le_bytes_of_words(words@).take(len as int)) && headers_view(v@)
            == elf_program_headers(le_bytes_of_words(words@).take(len as int))->0 && v@.len() < 0x10000,
{
    let elf = xmas_elf::ElfFile::new(&zerocopy::IntoBytes::as_bytes(words)[..len])?;
    let pt2 = elf.header.pt2;
    Ok((pt2.type_().0, pt2.entry_point(), elf.program_iter().map(|ph| SegmentHeader {
        kind: match ph.get_type() {
            Ok(Type::Load) => SegmentKind::Load,
            Ok(Type::Dynamic) => SegmentKind::Dynamic,
            Ok(Type::Interp) => SegmentKind::Interp,
            Ok(Type::ShLib) => SegmentKind::ShLib,
            Ok(Type::Tls) => SegmentKind::Tls,
            Ok(_) => SegmentKind::Other,
            Err(_) => SegmentKind::Invalid,
        },
        virtual_addr: ph.virtual_addr(), mem_size: ph.mem_size(), file_size: ph.file_size(),
        offset: ph.offset(), flags: ph.flags().0,
    }).collect()))
}

/// Reads the ELF file `bytes`: its type, entry point and program headers.
fn read_elf_bytes(bytes: &[u8]) -> (r: Result<(u16, u64, Vec<SegmentHeader>), &'static str>)
    requires
        program_table_fits(bytes@),
    ensures
        r is Ok <==> elf_program_headers(bytes@) is Some,
        r matches Ok((t, e, v)) ==> t == le_uint(bytes@, 16, 2) && e == elf_entry_field(bytes@)
            && headers_view(v@) == elf_program_headers(bytes@)->0,
{
    let words = words_of_bytes(bytes);
    read_elf(words.as_slice(), bytes.len())
}

/// The addresses of the sections that the ELF file `bytes` holds, in
/// order, as `xmas-elf` reads them.
pub uninterp spec fn elf_section_addresses(bytes: Seq<u8>) -> Seq<u64>;

/// Reads the address of each section header of the ELF file held in the
/// first `len` bytes of `words` (viewed as bytes as for [`read_elf`]), with
/// `xmas_elf::ElfFile::new`, `ElfFile::section_iter` and
/// `SectionHeader::address`.
///
/// What is claimed: the file is refused exactly where [`read_elf`] refuses
/// it (the same `ElfFile::new` decides), else the addresses are
/// `elf_section_addresses(bytes)`, a function of the bytes alone.
/// `xmas-elf` slices each section header out of the bytes, asserts that it
/// is aligned and that its index is below the reserved ones, and panics
/// otherwise: `requires` leaves those files out, as the bytes start where a
/// `u64` starts.
#[verifier::external_body]
fn read_section_addresses(words: &[u64], len: usize) -> (r: Result<Vec<u64>, &'static str>)
    requires
        len <= 8 * words@.len(),
        section_table_fits(le_bytes_of_words(words@).take(len as int)),
    ensures
        r is Ok <==> elf_program_headers(le_bytes_of_words(words@).take(len as int)) is Some,
        r matches Ok(v) ==> v@ == elf_section_addresses(le_bytes_of_words(words@).take(len as int)),
{
    let elf = xmas_elf::ElfFile::new(&zerocopy::IntoBytes::as_bytes(words)[..len])?;
    Ok(elf.section_iter().map(|sec| sec.address()).collect())
}

/// The addresses of the sections of the ELF file `bytes`, or `xmas-elf`'s
/// reason for refusing it. The section header table must lie within
/// `bytes` (see [`check_section_table`]).
pub fn section_addresses(bytes: &[u8]) -> (r: Result<Vec<u64>, &'static str>)
    requires
        section_table_fits(bytes@),
    ensures
        r is Ok <==> elf_program_headers(bytes@) is Some,
        r matches Ok(v) ==> v@ == elf_section_addresses(bytes@),
{
    let words = words_of_bytes(bytes);
    read_section_addresses(words.as_slice(), bytes.len())
}

/// The program headers of the ELF file `bytes`, or `xmas-elf`'s reason for
/// refusing it. The program header table must lie within `bytes` (see
/// [`check_program_table`]).
pub fn program_headers(bytes: &[u8]) -> (r: Result<Vec<SegmentHeader>, &'static str>)
    requires
        program_table_fits(bytes@),
    ensures
        r is Ok <==> elf_program_headers(bytes@) is Some,
        r matches Ok(v) ==> headers_view(v@) == elf_program_headers(bytes@)->0,
{
    match read_elf_bytes(bytes) {
        Ok((_, _, headers)) => Ok(headers),
        Err(e) => Err(e),
    }
}

/// The ELF file type of position-independent executables (`ET_DYN`), the
/// only type the executable loader takes.
pub const ELF_TYPE_SHARED_OBJECT: u16 = 3;

/// Why an executable was refused.
#[derive(Clone, Copy, Debug, PartialEq, Eq)]
pub enum ExecutableError {
    /// `xmas-elf` refused the file, for this reason.
    Elf(&'static str),
    /// The file is an ELF file of another type than a position-independent
    /// executable.
    NotAnExecutable,
}

/// What the loader reads of an executable: the entry point field of its
/// header (an address relative to where the executable is loaded) and its
/// program headers.
pub struct Executable {
    pub entry: u64,
    pub headers: Vec<SegmentHeader>,
}

/// The entry point and program headers of the executable `bytes`: refused
/// where `xmas-elf` refuses the file, or where its type is not that of a
/// position-independent executable. The program header table must lie
/// within `bytes` (see [`check_program_table`]).
pub fn executable_headers(bytes: &[u8]) -> (r: Result<Executable, ExecutableError>)
    requires
        program_table_fits(bytes@),
    ensures
        elf_program_headers(bytes@) is None <==> r matches Err(ExecutableError::Elf(_)),
        r matches Err(ExecutableError::NotAnExecutable) <==> (elf_program_headers(bytes@) is Some
            && le_uint(bytes@, 16, 2) != ELF_TYPE_SHARED_OBJECT),
        r matches Ok(x) ==> le_uint(bytes@, 16, 2) == ELF_TYPE_SHARED_OBJECT && x.entry
            == elf_entry_field(bytes@) && headers_view(x.headers@) == elf_program_headers(bytes@)->0,
{
    match read_elf_bytes(bytes) {
        Ok((file_type, entry, headers)) => {
            if file_type != ELF_TYPE_SHARED_OBJECT {
                Err(ExecutableError::NotAnExecutable)
            } else {
                Ok(Executable { entry, headers })
            }
        },
        Err(e) => Err(ExecutableError::Elf(e)),
    }
}

/// The address of the entry point of an executable loaded at
/// `load_address` whose header gives `e_entry`, or `None` where the sum
/// does not fit in 64 bits.
pub fn entry_point(load_address: u64, e_entry: u64) -> (r: Option<u64>)
    ensures
        r == (if load_address + e_entry <= u64::MAX {
            Some((load_address + e_entry) as u64)
        } else {
            None::<u64>
        }),
{
    load_address.checked_add(e_entry)
}

/// Whether the loadable headers of `h` have an end address that fits in
/// 64 bits.
pub open spec fn load_ends_fit(h: Seq<SegmentHeader>) -> bool {
    forall|i: int|
        0 <= i < h.len() && (#[trigger] h[i]).kind == SegmentKind::Load ==> h[i].virtual_addr
            + h[i].mem_size <= u64::MAX
}

/// The lowest start, the highest end and the number of the loadable
/// segments among `h`; `(u64::MAX, 0, 0)` when there are none.
pub open spec fn load_span_spec(h: Seq<SegmentHeader>) -> (u64, u64, nat)
    decreases h.len(),
{
    if h.len() == 0 {
        (u64::MAX, 0, 0)
    } else {
        let (s, e, n) = load_span_spec(h.drop_last());
        let x = h.last();
        if x.kind == SegmentKind::Load {
            let end = (x.virtual_addr + x.mem_size) as u64;
            (
                if x.virtual_addr < s {
                    x.virtual_addr
                } else {
                    s
                },
                if end > e {
                    end
                } else {
                    e
                },
                n + 1,
            )
        } else {
            (s, e, n)
        }
    }
}

/// The span of memory the loadable segments of an executable cover: the
/// lowest start address, the highest end address and how many loadable
/// segments there are.
pub fn load_span(headers: &[SegmentHeader]) -> (r: (u64, u64, usize))
    requires
        load_ends_fit(headers@),
    ensures
        (r.0, r.1, r.2 as nat) == load_span_spec(headers@),
{
    let mut start: u64 = u64::MAX;
    let mut end: u64 = 0;
    let mut num: usize = 0;
    let mut i: usize = 0;
    while i < headers.len()
        invariant
            i <= headers@.len(),
            load_ends_fit(headers@),
            (start, end, num as nat) == load_span_spec(headers@.take(i as int)),
            num <= i,
        decreases headers@.len() - i,
    {
        let h = headers[i];
        proof {
            assert(headers@.take(i + 1).drop_last() =~= headers@.take(i as int));
            assert(headers@.take(i + 1).last() == h);
        }
        if h.kind == SegmentKind::Load {
            num = num + 1;
            if h.virtual_addr < start {
                start = h.virtual_addr;
            }
            let seg_end = h.virtual_addr + h.mem_size;
            if seg_end > end {
                end = seg_end;
            }
        }
        i = i + 1;
    }
    proof {
        assert(headers@.take(i as int) =~= headers@);
    }
    (start, end, num)
}

/// The span a crate's loader computes from the loadable segments of `h`
/// that occupy memory: the lowest start, and an end that starts out as
/// `u64::MAX` and is only ever raised, so it stays `u64::MAX`.
pub open spec fn crate_span_spec(h: Seq<SegmentHeader>) -> (u64, u64)
    decreases h.len(),
{
    if h.len() == 0 {
        (u64::MAX, u64::MAX)
    } else {
        let (s, e) = crate_span_spec(h.drop_last());
        let x = h.last();
        if x.kind == SegmentKind::Load && x.mem_size != 0 && x.virtual_addr < s {
            (x.virtual_addr, e)
        } else {
            (s, e)
        }
    }
}

/// The end of a crate's span is always `u64::MAX`.
pub proof fn lemma_crate_span_end(h: Seq<SegmentHeader>)
    ensures
        crate_span_spec(h).1 == u64::MAX,
    decreases h.len(),
{
    if h.len() > 0 {
        lemma_crate_span_end(h.drop_last());
    }
}

/// The kinds a crate's loader does not handle yet.
pub open spec fn kind_not_yet_supported(k: SegmentKind) -> bool {
    k == SegmentKind::Interp || k == SegmentKind::ShLib || k == SegmentKind::Tls
}

/// Whether a crate's loader can handle the headers `h`: no header of an
/// header it cannot go on past (a kind it does not support yet: interpreter,
/// shared library, thread-local storage; or a loadable segment whose end
/// does not fit in 64 bits) unless a header of an invalid kind comes first,
/// where the loader stops with an error.
pub open spec fn crate_headers_supported(h: Seq<SegmentHeader>) -> bool {
    forall|i: int|
        0 <= i < h.len() && header_stops_loader(#[trigger] h[i]) ==> invalid_before(h, i)
}

/// Whether the loader cannot go on past header `x`: a kind it does not
/// support yet, or a loadable segment whose end does not fit in 64 bits.
pub open spec fn header_stops_loader(x: SegmentHeader) -> bool {
    kind_not_yet_supported(x.kind) || (x.kind == SegmentKind::Load && x.mem_size != 0
        && x.virtual_addr + x.mem_size > u64::MAX)
}

/// Whether some header before position `i` of `h` has an invalid kind (the
/// loader then stops there with an error).
pub open spec fn invalid_before(h: Seq<SegmentHeader>, i: int) -> bool {
    exists|j: int| 0 <= j < i && (#[trigger] h[j]).kind == SegmentKind::Invalid
}

/// The span a crate's loader maps for the segments `headers`, or `Err` when
/// a header has an invalid kind.
///
/// The loader starts the end at `u64::MAX` and takes the maximum with each
/// segment's end, so the end it returns is always `u64::MAX`.
pub fn crate_load_span(headers: &[SegmentHeader]) -> (r: Result<(u64, u64), ()>)
    requires
        crate_headers_supported(headers@),
    ensures
        (exists|i: int| 0 <= i < headers@.len() && (#[trigger] headers@[i]).kind == SegmentKind::Invalid)
            <==> r is Err,
        r matches Ok(span) ==> span == crate_span_spec(headers@),
{
    let mut start: u64 = u64::MAX;
    let mut end: u64 = u64::MAX;
    let mut i: usize = 0;
    while i < headers.len()
        invariant
            i <= headers@.len(),
            crate_headers_supported(headers@),
            (start, end) == crate_span_spec(headers@.take(i as int)),
            forall|k: int| 0 <= k < i ==> (#[trigger] headers@[k]).kind != SegmentKind::Invalid,
        decreases headers@.len() - i,
    {
        let h = headers[i];
        proof {
            assert(headers@.take(i + 1).drop_last() =~= headers@.take(i as int));
            assert(headers@.take(i + 1).last() == h);
            lemma_crate_span_end(headers@.take(i as int));
            if header_stops_loader(h) {
                assert(invalid_before(headers@, i as int));
                let j = choose|j: int| 0 <= j < i && (#[trigger] headers@[j]).kind == SegmentKind::Invalid;
                assert(headers@[j].kind != SegmentKind::Invalid);
            }
        }
        match h.kind {
            SegmentKind::Invalid => {
                return Err(());
            },
            SegmentKind::Load => {
                if h.mem_size != 0 {
                    let virtual_address = h.virtual_addr;
                    if virtual_address < start {
                        start = virtual_address;
                    }
                    let seg_end = virtual_address + h.mem_size;
                    if seg_end > end {
                        end = seg_end;
                    }
                }
            },
            _ => {},
        }
        i = i + 1;
    }
    proof {
        assert(headers@.take(i as int) =~= headers@);
    }
    Ok((start, end))
}

/// Fills the memory of a segment: its first `file_size` bytes come from the
/// file (`data`), the rest (up to the segment's memory size, the length of
/// `dest`) are zero.
pub fn copy_segment(dest: &mut [u8], data: &[u8], file_size: usize)
    requires
        file_size <= old(dest)@.len(),
        file_size <= data@.len(),
    ensures
        final(dest)@.len() == old(dest)@.len(),
        final(dest)@.take(file_size as int) == data@.take(file_size as int),
        forall|i: int| file_size <= i < final(dest)@.len() ==> #[trigger] final(dest)@[i] == 0,
{
    let mut i: usize = 0;
    while i < file_size
        invariant
            i <= file_size <= dest@.len(),
            file_size <= data@.len(),
            dest@.len() == old(dest)@.len(),
            forall|k: int| 0 <= k < i ==> #[trigger] dest@[k] == data@[k],
        decreases file_size - i,
    {
        dest[i] = data[i];
        i = i + 1;
    }
    let mut j: usize = file_size;
    while j < dest.len()
        invariant
            file_size <= j <= dest@.len(),
            dest@.len() == old(dest)@.len(),
            forall|k: int| 0 <= k < file_size ==> #[trigger] dest@[k] == data@[k],
            forall|k: int| file_size <= k < j ==> #[trigger] dest@[k] == 0,
        decreases dest@.len() - j,
    {
        dest[j] = 0;
        j = j + 1;
    }
    assert(dest@.take(file_size as int) =~= data@.take(file_size as int));
}

/// The indices of the sections (by their addresses `section_addrs`) that
/// lie within the segment bounds `start..end`, in increasing order.
pub fn sections_in_segment(section_addrs: &[u64], start: u64, end: u64) -> (r: Vec<usize>)
    ensures
        forall|k: int| 0 <= k < r@.len() ==> #[trigger] r@[k] < section_addrs@.len() && start
            <= section_addrs@[r@[k] as int] < end,
        forall|i: int|
            0 <= i < section_addrs@.len() && start <= #[trigger] section_addrs@[i] < end ==> r@.contains(
                i as usize,
            ),
        forall|k: int, l: int| 0 <= k < l < r@.len() ==> r@[k] < r@[l],
{
    let mut out: Vec<usize> = Vec::new();
    let mut i: usize = 0;
    while i < section_addrs.len()
        invariant
            i <= section_addrs@.len(),
            forall|k: int| 0 <= k < out@.len() ==> #[trigger] out@[k] < i && start
                <= section_addrs@[out@[k] as int] < end,
            forall|m: int|
                0 <= m < i && start <= #[trigger] section_addrs@[m] < end ==> out@.contains(m as usize),
            forall|k: int, l: int| 0 <= k < l < out@.len() ==> out@[k] < out@[l],
        decreases section_addrs@.len() - i,
    {
        let a = section_addrs[i];
        if start <= a && a < end {
            let ghost before = out@;
            out.push(i);
            proof {
                assert forall|m: int|
                    0 <= m <= i && start <= #[trigger] section_addrs@[m] < end implies out@.contains(
                    m as usize,
                ) by {
                    if m < i {
                        let k = choose|k: int| 0 <= k < before.len() && before[k] == m as usize;
                        assert(out@[k] == m as usize);
                    } else {
                        assert(out@[out@.len() - 1] == m as usize);
                    }
                }
            }
        }
        i = i + 1;
    }
    out
}

/// An ELF program segment that has been loaded into memory.
#[derive(Clone, Debug)]
pub struct LoadedSegment {
    /// The first virtual address the segment occupies.
    pub bounds_start: u64,
    /// The virtual address just past the segment.
    pub bounds_end: u64,
    /// The page flags the ELF file asks for this segment.
    pub flags: PteFlags,
    /// The indices of the sections the linker grouped into this segment.
    pub section_ndxs: Vec<usize>,
}

/// The page-table flags a segment is mapped with.
#[derive(Clone, Copy, Debug, PartialEq, Eq, Structural)]
pub struct PteFlags {
    pub valid: bool,
    pub writable: bool,
    pub executable: bool,
}

/// The ELF segment flag for executable segments.
pub const FLAG_X: u32 = 0x1;
/// The ELF segment flag for writable segments.
pub const FLAG_W: u32 = 0x2;
/// The ELF segment flag for readable segments.
pub const FLAG_R: u32 = 0x4;

/// The page flags that the ELF segment flags `prog_flags` call for: a
/// readable segment is valid, a writable one writable, an executable one
/// executable.
pub fn convert_to_pte_flags(prog_flags: u32) -> (r: PteFlags)
    ensures
        r == pte_flags_of(prog_flags),
        r.valid == (prog_flags & FLAG_R == FLAG_R),
        r.writable == (prog_flags & FLAG_W == FLAG_W),
        r.executable == (prog_flags & FLAG_X == FLAG_X),
{
    PteFlags {
        valid: prog_flags & FLAG_R == FLAG_R,
        writable: prog_flags & FLAG_W == FLAG_W,
        executable: prog_flags & FLAG_X == FLAG_X,
    }
}

/// The page flags that the ELF segment flags `f` call for.
pub open spec fn pte_flags_of(f: u32) -> PteFlags {
    PteFlags { valid: f & FLAG_R == FLAG_R, writable: f & FLAG_W == FLAG_W, executable: f & FLAG_X == FLAG_X }
}

/// Where a loadable segment goes in the memory of an executable, and which
/// bytes of the file fill it.
#[derive(Clone, Copy, Debug, PartialEq, Eq, Structural)]
pub struct SegmentPlacement {
    /// The segment's offset from the start of the memory allocated for the
    /// executable: its virtual address.
    pub image_offset: u64,
    /// The bytes the segment takes in memory.
    pub mem_size: u64,
    /// Where the segment's data starts in the file.
    pub file_offset: u64,
    /// How many bytes of data the file holds for it; the rest is zeroed.
    pub file_size: u64,
    /// The page flags the segment asks for.
    pub flags: PteFlags,
}

/// Whether the loader places segment `h`: a loadable segment that takes
/// memory.
pub open spec fn placed(h: SegmentHeader) -> bool {
    h.kind == SegmentKind::Load && h.mem_size != 0
}

/// Where segment `h` goes in the memory allocated for an executable: at its
/// virtual address from the allocation's start.
pub open spec fn placement_of(h: SegmentHeader) -> SegmentPlacement {
    SegmentPlacement {
        image_offset: h.virtual_addr,
        mem_size: h.mem_size,
        file_offset: h.offset,
        file_size: h.file_size,
        flags: pte_flags_of(h.flags),
    }
}

/// The placements of the placed segments of `h`, in order.
pub open spec fn placements(h: Seq<SegmentHeader>) -> Seq<SegmentPlacement>
    decreases h.len(),
{
    if h.len() == 0 {
        Seq::empty()
    } else if placed(h.last()) {
        placements(h.drop_last()).push(placement_of(h.last()))
    } else {
        placements(h.drop_last())
    }
}

/// The bytes allocated for the segments `h`: from the lowest loadable
/// address to the highest loadable end.
pub open spec fn image_size(h: Seq<SegmentHeader>) -> int {
    let (start, end, n) = load_span_spec(h);
    if n == 0 {
        0
    } else {
        end - start
    }
}

/// Whether segment `h` can be placed: its data lies within a file of
/// `file_len` bytes and fits in the segment's memory, and the segment,
/// placed at its virtual address, lies within an allocation of
/// `image_size` bytes.
pub open spec fn segment_fits(h: SegmentHeader, file_len: u64, image_size: int) -> bool {
    h.file_size <= h.mem_size && h.offset + h.file_size <= file_len && h.virtual_addr + h.mem_size
        <= image_size
}

/// Why the segments of an executable cannot be placed.
#[derive(Clone, Copy, Debug, PartialEq, Eq, Structural)]
pub enum PlacementError {
    /// A placed segment's data lies past the end of the file or is larger
    /// than the segment's memory, or the segment lies past the end of the
    /// memory allocated for the executable.
    SegmentDoesNotFit,
}

/// Where a loadable segment exists, the lowest start is at most the highest
/// end.
proof fn lemma_load_span_ordered(h: Seq<SegmentHeader>)
    requires
        load_ends_fit(h),
    ensures
        load_span_spec(h).2 > 0 ==> load_span_spec(h).0 <= load_span_spec(h).1,
    decreases h.len(),
{
    if h.len() > 0 {
        let p = h.drop_last();
        assert(load_ends_fit(p)) by {
            assert forall|i: int| 0 <= i < p.len() && (#[trigger] p[i]).kind == SegmentKind::Load implies p[i].virtual_addr + p[i].mem_size <= u64::MAX by {
                assert(p[i] == h[i]);
            }
        }
        lemma_load_span_ordered(p);
        assert(h[h.len() - 1] == h.last());
    }
}

/// Places the segments of an executable of `file_len` bytes. The memory
/// allocated for it spans from the lowest loadable address `base` to the
/// highest loadable end; each loadable segment that takes memory goes at
/// its virtual address from the allocation's start, with the file range
/// its data is copied from (the rest of its memory is zero-filled).
/// Refused where a placed segment's data or memory does not fit.
pub fn place_segments(headers: &[SegmentHeader], file_len: u64) -> (r: Result<(u64, Vec<SegmentPlacement>), PlacementError>)
    requires
        load_ends_fit(headers@),
    ensures
        r is Err <==> exists|i: int| 0 <= i < headers@.len() && placed(#[trigger] headers@[i]) && !segment_fits(headers@[i], file_len, image_size(headers@)),
        r matches Ok((base, v)) ==> base == load_span_spec(headers@).0 && v@ == placements(headers@),
{
    let (base, end, count) = load_span(headers);
    proof {
        lemma_load_span_covers(headers@);
    }
    let size: u64 = if count == 0 {
        0
    } else {
        proof {
            lemma_load_span_ordered(headers@);
        }
        end - base
    };
    let mut v: Vec<SegmentPlacement> = Vec::new();
    let mut i: usize = 0;
    while i < headers.len()
        invariant
            i <= headers@.len(),
            base == load_span_spec(headers@).0,
            size == image_size(headers@),
            forall|j: int| 0 <= j < i && placed(#[trigger] headers@[j]) ==> segment_fits(headers@[j], file_len, image_size(headers@)),
            v@ == placements(headers@.take(i as int)),
        decreases headers@.len() - i,
    {
        let h = headers[i];
        proof {
            assert(headers@.take(i + 1).drop_last() =~= headers@.take(i as int));
            assert(headers@.take(i + 1).last() == h);
        }
        if h.kind == SegmentKind::Load && h.mem_size != 0 {
            if !(h.file_size <= h.mem_size && h.offset <= file_len && h.file_size <= file_len - h.offset
                && h.virtual_addr <= size && h.mem_size <= size - h.virtual_addr) {
                return Err(PlacementError::SegmentDoesNotFit);
            }
            v.push(SegmentPlacement {
                image_offset: h.virtual_addr,
                mem_size: h.mem_size,
                file_offset: h.offset,
                file_size: h.file_size,
                flags: convert_to_pte_flags(h.flags),
            });
        }
        i = i + 1;
    }
    proof {
        assert(headers@.take(headers@.len() as int) =~= headers@);
    }
    Ok((base, v))
}

/// Whether placement `p` can be filled from a file of `file_len` bytes into
/// an image of `size` bytes: its data lies within the file and within the
/// segment's memory, and the segment lies within the image.
pub open spec fn placement_fits(p: SegmentPlacement, file_len: nat, size: nat) -> bool {
    p.file_size <= p.mem_size && p.file_offset + p.file_size <= file_len && p.image_offset + p.mem_size
        <= size
}

/// Byte `i` of an image that held `prev`, after segment `p` was copied into
/// it from the file `bytes`: the segment's data, then zeros up to its memory
/// size; bytes outside the segment are unchanged.
pub open spec fn copied_byte(prev: Seq<u8>, bytes: Seq<u8>, p: SegmentPlacement, i: int) -> u8 {
    if p.image_offset <= i < p.image_offset + p.file_size {
        bytes[p.file_offset + (i - p.image_offset)]
    } else if p.image_offset + p.file_size <= i < p.image_offset + p.mem_size {
        0
    } else {
        prev[i]
    }
}

/// The image of `size` bytes, zero at first, after the segments `ps` were
/// copied into it in order from the file `bytes`.
pub open spec fn image_after(bytes: Seq<u8>, ps: Seq<SegmentPlacement>, size: nat) -> Seq<u8>
    decreases ps.len(),
{
    if ps.len() == 0 {
        Seq::new(size, |i: int| 0u8)
    } else {
        let prev = image_after(bytes, ps.drop_last(), size);
        Seq::new(size, |i: int| copied_byte(prev, bytes, ps.last(), i))
    }
}

/// Whether `r` lists, in increasing order, exactly the indices of the
/// sections (by their addresses `addrs`) that lie within `start..end`.
pub open spec fn sections_within(r: Seq<usize>, addrs: Seq<u64>, start: u64, end: u64) -> bool {
    &&& forall|k: int| 0 <= k < r.len() ==> #[trigger] r[k] < addrs.len() && start <= addrs[r[k] as int] < end
    &&& forall|i: int| 0 <= i < addrs.len() && start <= #[trigger] addrs[i] < end ==> r.contains(i as usize)
    &&& forall|k: int, l: int| 0 <= k < l < r.len() ==> r[k] < r[l]
}

/// Whether `s` is the loaded form of segment `p`: its bounds in the image,
/// its page flags, and the sections (by their addresses `addrs`) within it.
pub open spec fn segment_loaded(s: LoadedSegment, p: SegmentPlacement, addrs: Seq<u64>) -> bool {
    &&& s.bounds_start == p.image_offset
    &&& s.bounds_end == p.image_offset + p.mem_size
    &&& s.flags == p.flags
    &&& sections_within(s.section_ndxs@, addrs, s.bounds_start, s.bounds_end)
}

/// Why the segments of an executable cannot be loaded.
#[derive(Clone, Copy, Debug, PartialEq, Eq, Structural)]
pub enum ImageError {
    /// The memory the segments span cannot be allocated.
    CannotAllocate,
    /// A segment does not fit in the file or in the memory allocated.
    SegmentDoesNotFit,
}

/// Every placement of the segments `h` fits where every placed segment does.
proof fn lemma_placements_fit(h: Seq<SegmentHeader>, file_len: u64, size: int)
    requires
        size >= 0,
        forall|i: int| 0 <= i < h.len() && placed(#[trigger] h[i]) ==> segment_fits(h[i], file_len, size),
    ensures
        forall|k: int| 0 <= k < placements(h).len() ==> placement_fits(#[trigger] placements(h)[k], file_len as nat, size as nat),
    decreases h.len(),
{
    if h.len() > 0 {
        let p = h.drop_last();
        assert forall|i: int| 0 <= i < p.len() && placed(#[trigger] p[i]) implies segment_fits(p[i], file_len, size) by {
            assert(p[i] == h[i]);
        }
        lemma_placements_fit(p, file_len, size);
        assert(h[h.len() - 1] == h.last());
        assert forall|k: int| 0 <= k < placements(h).len() implies placement_fits(#[trigger] placements(h)[k], file_len as nat, size as nat) by {
            if k < placements(p).len() {
                assert(placements(h)[k] == placements(p)[k]);
            } else {
                assert(placements(h)[k] == placement_of(h.last()));
            }
        }
    }
}

/// Copies segment `p` from the file `bytes` into `image`: its data, then
/// zeros up to its memory size.
fn copy_placement(image: &mut Vec<u8>, bytes: &[u8], p: SegmentPlacement)
    requires
        placement_fits(p, bytes@.len(), old(image)@.len()),
    ensures
        final(image)@ == Seq::new(old(image)@.len(), |i: int| copied_byte(old(image)@, bytes@, p, i)),
{
    let image_len = image.len();
    let bytes_len = bytes.len();
    assert(p.image_offset + p.mem_size <= image_len && p.file_offset + p.file_size <= bytes_len);
    let start = p.image_offset as usize;
    let file_size = p.file_size as usize;
    let mem_size = p.mem_size as usize;
    let from = p.file_offset as usize;
    let mut i: usize = 0;
    while i < mem_size
        invariant
            image@.len() == old(image)@.len(),
            image@.len() == image_len,
            bytes@.len() == bytes_len,
            start + mem_size <= image_len,
            from + file_size <= bytes_len,
            file_size <= mem_size,
            placement_fits(p, bytes@.len(), old(image)@.len()),
            start == p.image_offset,
            file_size == p.file_size,
            mem_size == p.mem_size,
            from == p.file_offset,
            i <= mem_size,
            forall|j: int|
                0 <= j < image@.len() ==> #[trigger] image@[j] == (if start <= j < start + i {
                    copied_byte(old(image)@, bytes@, p, j)
                } else {
                    old(image)@[j]
                }),
        decreases mem_size - i,
    {
        let b: u8 = if i < file_size {
            bytes[from + i]
        } else {
            0
        };
        image[start + i] = b;
        i = i + 1;
    }
    assert(image@ =~= Seq::new(old(image)@.len(), |i: int| copied_byte(old(image)@, bytes@, p, i)));
}

/// Loads the segments `headers` of an executable read from `bytes`: the
/// memory from the lowest loadable address to the highest loadable end is
/// allocated, zeroed, and each loadable segment that takes memory is copied
/// in at its virtual address from the allocation's start, in the order of
/// the headers; each is listed with its bounds, page flags and the sections
/// (by their addresses `section_addrs`) within it. Returns the lowest
/// loadable address, the memory and the segments.
pub fn load_segments(bytes: &[u8], headers: &[SegmentHeader], section_addrs: &[u64]) -> (r: Result<
    (u64, Vec<u8>, Vec<LoadedSegment>),
    ImageError,
>)
    requires
        load_ends_fit(headers@),
    ensures
        (r matches Err(e) && e == ImageError::CannotAllocate) <==> image_size(headers@) > usize::MAX,
        (r matches Err(e) && e == ImageError::SegmentDoesNotFit) <==> (image_size(headers@) <= usize::MAX
            && exists|i: int|
            0 <= i < headers@.len() && placed(#[trigger] headers@[i]) && !segment_fits(
                headers@[i],
                bytes@.len() as u64,
                image_size(headers@),
            )),
        r matches Ok((base, image, segments)) ==> {
            &&& base == load_span_spec(headers@).0
            &&& image@ == image_after(bytes@, placements(headers@), image_size(headers@) as nat)
            &&& segments@.len() == placements(headers@).len()
            &&& forall|k: int|
                0 <= k < segments@.len() ==> segment_loaded(
                    #[trigger] segments@[k],
                    placements(headers@)[k],
                    section_addrs@,
                )
        },
{
    let (start, end, count) = load_span(headers);
    let size: u64 = if count == 0 {
        0
    } else {
        proof {
            lemma_load_span_ordered(headers@);
        }
        end - start
    };
    if size > usize::MAX as u64 {
        return Err(ImageError::CannotAllocate);
    }
    let (base, placed_segments) = match place_segments(headers, bytes.len() as u64) {
        Ok(x) => x,
        Err(_) => {
            return Err(ImageError::SegmentDoesNotFit);
        },
    };
    let ghost ps = placements(headers@);
    proof {
        lemma_placements_fit(headers@, bytes.len() as u64, size as int);
    }
    let mut image: Vec<u8> = Vec::new();
    let mut n: usize = 0;
    while n < size as usize
        invariant
            n <= size,
            image@ == Seq::new(n as nat, |i: int| 0u8),
        decreases size - n,
    {
        image.push(0);
        n = n + 1;
    }
    proof {
        assert(image@ == image_after(bytes@, ps.take(0), size as nat));
    }
    let mut segments: Vec<LoadedSegment> = Vec::new();
    let mut k: usize = 0;
    while k < placed_segments.len()
        invariant
            placed_segments@ == ps,
            k <= ps.len(),
            size == image_size(headers@),
            size <= usize::MAX,
            forall|j: int| 0 <= j < ps.len() ==> placement_fits(#[trigger] ps[j], bytes@.len(), size as nat),
            image@ == image_after(bytes@, ps.take(k as int), size as nat),
            segments@.len() == k,
            forall|j: int| 0 <= j < k ==> segment_loaded(#[trigger] segments@[j], ps[j], section_addrs@),
        decreases ps.len() - k,
    {
        let p = placed_segments[k];
        assert(placement_fits(ps[k as int], bytes@.len(), size as nat));
        copy_placement(&mut image, bytes, p);
        proof {
            assert(ps.take(k + 1).drop_last() =~= ps.take(k as int));
            assert(ps.take(k + 1).last() == p);
        }
        let seg_end = p.image_offset + p.mem_size;
        let section_ndxs = sections_in_segment(section_addrs, p.image_offset, seg_end);
        segments.push(LoadedSegment { bounds_start: p.image_offset, bounds_end: seg_end, flags: p.flags, section_ndxs });
        k = k + 1;
    }
    proof {
        assert(ps.take(ps.len() as int) =~= ps);
    }
    Ok((base, image, segments))
}

/// The dynamic tag giving the address of the relocation table.
pub const DT_RELA: u8 = 7;
/// The dynamic tag giving the size in bytes of the relocation table.
pub const DT_RELASZ: u8 = 8;
/// The dynamic tag giving the size in bytes of one relocation entry.
pub const DT_RELAENT: u8 = 9;

/// An entry of a dynamic table, as far as the loader reads it.
#[derive(Clone, Copy, Debug, PartialEq, Eq, Structural)]
pub enum DynEntry {
    /// The address of the relocation table.
    Rela(u64),
    /// The size in bytes of the relocation table.
    RelaSize(u64),
    /// The size in bytes of one relocation entry.
    RelaEnt(u64),
    /// Any other entry, or one whose tag is no valid tag.
    Other,
}

/// An entry as its tag number (0 for the other entries) and value.
pub open spec fn dyn_entry_view(e: DynEntry) -> (u8, u64) {
    match e {
        DynEntry::Rela(v) => (DT_RELA, v),
        DynEntry::RelaSize(v) => (DT_RELASZ, v),
        DynEntry::RelaEnt(v) => (DT_RELAENT, v),
        DynEntry::Other => (0u8, 0u64),
    }
}

/// The views of a list of entries.
pub open spec fn dyn_entries_view(v: Seq<DynEntry>) -> Seq<(u8, u64)> {
    v.map_values(|e: DynEntry| dyn_entry_view(e))
}

/// The entries of the dynamic table of program header `index` of the
/// 64-bit ELF file `bytes`, as `xmas-elf` reads them, each viewed as by
/// [`dyn_entry_view`].
pub uninterp spec fn elf_dynamic_entries(bytes: Seq<u8>, index: nat) -> Seq<(u8, u64)>;

/// Whether the table of the dynamic segment with header (viewed) `h` holds
/// whole 16-byte entries, at least one, lies within a file of `len` bytes
/// and starts at a multiple of 8.
pub open spec fn dyn_fits(h: (u8, u64, u64, u64, u64, u32), len: nat) -> bool {
    h.3 > 0 && h.3 % 16 == 0 && h.4 % 8 == 0 && h.4 + h.3 <= len
}

/// Whether the file `b` is a 64-bit ELF file, as its class byte says.
pub open spec fn is_64_bit(b: Seq<u8>) -> bool {
    b.len() > 4 && b[4] == 2
}

/// Reads the entries of the dynamic table of program header `index` of the
/// 64-bit ELF file held in the first `len` bytes of `words` (viewed as bytes
/// as for [`read_elf`]), with `xmas_elf::ElfFile::new`,
/// `ElfFile::program_header`, `ProgramHeader::get_data` (a `Dynamic64`
/// table), `Dynamic::get_tag` and `get_ptr` / `get_val`.
///
/// What is claimed: for a header that `xmas-elf` reads as dynamic, the
/// reading succeeds (the relocation tags are ones `get_ptr` and `get_val`
/// accept), and the entries are `elf_dynamic_entries(bytes, index)`, a
/// function of the bytes alone. `get_data` slices the table out of the
/// bytes and asserts that it holds whole entries and is aligned (an empty
/// table is a slice that is not): `requires` leaves out tables for which it
/// would panic.
#[verifier::external_body]
fn read_dynamic_entries(words: &[u64], len: usize, index: u16) -> (r: Result<Vec<DynEntry>, &'static str>)
    requires
        len <= 8 * words@.len(),
        program_table_fits(le_bytes_of_words(words@).take(len as int)),
        is_64_bit(le_bytes_of_words(words@).take(len as int)),
        elf_program_headers(le_bytes_of_words(words@).take(len as int)) matches Some(hs) && index
            < hs.len() && hs[index as int].0 == kind_code(SegmentKind::Dynamic) && dyn_fits(
            hs[index as int],
            len as nat,
        ),
    ensures
        r is Ok,
        r matches Ok(v) ==> dyn_entries_view(v@) == elf_dynamic_entries(le_bytes_of_words(words@).take(len as int), index as nat),
{
    let elf = xmas_elf::ElfFile::new(&zerocopy::IntoBytes::as_bytes(words)[..len])?;
    match elf.program_header(index)?.get_data(&elf)? {
        SegmentData::Dynamic64(list) => list.iter().map(|e| Ok(match e.get_tag() {
            Ok(Tag::Rela) => DynEntry::Rela(e.get_ptr()?),
            Ok(Tag::RelaSize) => DynEntry::RelaSize(e.get_val()?),
            Ok(Tag::RelaEnt) => DynEntry::RelaEnt(e.get_val()?),
            _ => DynEntry::Other,
        })).collect(),
        _ => Err("not a 64-bit dynamic table"),
    }
}

/// The entries of the dynamic tables among the headers `hs` of the file
/// `b`, in order.
pub open spec fn all_dyn_entries(b: Seq<u8>, hs: Seq<(u8, u64, u64, u64, u64, u32)>) -> Seq<(u8, u64)>
    decreases hs.len(),
{
    if hs.len() == 0 {
        Seq::empty()
    } else if hs.last().0 == kind_code(SegmentKind::Dynamic) {
        all_dyn_entries(b, hs.drop_last()) + elf_dynamic_entries(b, (hs.len() - 1) as nat)
    } else {
        all_dyn_entries(b, hs.drop_last())
    }
}

/// The values of the last relocation-table address, size and entry size
/// entries among the dynamic entries `es`.
pub open spec fn rela_tags(es: Seq<(u8, u64)>) -> (Option<u64>, Option<u64>, Option<u64>)
    decreases es.len(),
{
    if es.len() == 0 {
        (None, None, None)
    } else {
        let (o, z, e) = rela_tags(es.drop_last());
        let (t, v) = es.last();
        if t == DT_RELA {
            (Some(v), z, e)
        } else if t == DT_RELASZ {
            (o, Some(v), e)
        } else if t == DT_RELAENT {
            (o, z, Some(v))
        } else {
            (o, z, e)
        }
    }
}

/// Why no relocation table could be found.
#[derive(Clone, Copy, Debug, PartialEq, Eq)]
pub enum RelocationError {
    /// `xmas-elf` refused the file, for this reason.
    Elf(&'static str),
    /// A dynamic table is empty, holds no whole number of entries, does not
    /// lie within the file or does not start at a multiple of 8.
    BadDynamicSegment,
    /// The file is no 64-bit file, or its dynamic tables lack the address,
    /// the size or the entry size of the relocation table.
    MissingTag,
    /// The entry size is 0, or the table size is no multiple of it.
    NotWholeEntries,
}

/// The relocation table of an executable: its address (relative to where
/// the executable is loaded), its size, the size of one entry and the
/// number of entries.
#[derive(Clone, Copy, Debug, PartialEq, Eq, Structural)]
pub struct RelocationTable {
    pub offset: u64,
    pub size: u64,
    pub entry_size: u64,
    pub count: u64,
}

/// The relocation table, as (address, size, entry size), that the dynamic
/// tables of the ELF file `b` with program headers `hs` describe.
pub open spec fn relocation_table_spec(b: Seq<u8>, hs: Seq<(u8, u64, u64, u64, u64, u32)>) -> Result<(u64, u64, u64), RelocationError> {
    if !is_64_bit(b) {
        Err(RelocationError::MissingTag)
    } else if exists|i: int| 0 <= i < hs.len() && (#[trigger] hs[i]).0 == kind_code(SegmentKind::Dynamic) && !dyn_fits(hs[i], b.len()) {
        Err(RelocationError::BadDynamicSegment)
    } else {
        match rela_tags(all_dyn_entries(b, hs)) {
            (Some(o), Some(z), Some(e)) => if e == 0 || z % e != 0 {
                Err(RelocationError::NotWholeEntries)
            } else {
                Ok((o, z, e))
            },
            _ => Err(RelocationError::MissingTag),
        }
    }
}

/// Scans the dynamic tables of the ELF file `bytes` for the relocation
/// table: its address, size and entry size are the values of the last
/// entries of each kind, and its entry count is the size over the entry
/// size. The program header table must lie within `bytes` (see
/// [`check_program_table`]).
pub fn relocation_table(bytes: &[u8]) -> (r: Result<RelocationTable, RelocationError>)
    requires
        program_table_fits(bytes@),
    ensures
        elf_program_headers(bytes@) is None <==> r matches Err(RelocationError::Elf(_)),
        elf_program_headers(bytes@) matches Some(hs) ==> match r {
            Ok(t) => relocation_table_spec(bytes@, hs) == Ok::<(u64, u64, u64), RelocationError>(
                (t.offset, t.size, t.entry_size),
            ) && t.count * t.entry_size == t.size,
            Err(e) => relocation_table_spec(bytes@, hs) == Err::<(u64, u64, u64), RelocationError>(e),
        },
{
    let words = words_of_bytes(bytes);
    let len = bytes.len();
    let headers = match read_elf(words.as_slice(), len) {
        Ok((_, _, headers)) => headers,
        Err(e) => {
            return Err(RelocationError::Elf(e));
        },
    };
    let ghost hs = headers_view(headers@);
    assert(le_bytes_of_words(words@).take(len as int) == bytes@);
    if !(len > 4 && bytes[4] == 2) {
        return Err(RelocationError::MissingTag);
    }
    let mut i: usize = 0;
    while i < headers.len()
        invariant
            i <= headers@.len(),
            len == bytes@.len(),
            hs == headers_view(headers@),
            elf_program_headers(bytes@) == Some(hs),
            is_64_bit(bytes@),
            forall|j: int| 0 <= j < i && (#[trigger] hs[j]).0 == kind_code(SegmentKind::Dynamic) ==> dyn_fits(hs[j], len as nat),
        decreases headers@.len() - i,
    {
        let h = headers[i];
        assert(hs[i as int] == h@);
        if h.kind == SegmentKind::Dynamic {
            if !(h.file_size > 0 && h.file_size % 16 == 0 && h.offset % 8 == 0 && h.offset <= len as u64 && h.file_size <= len as u64 - h.offset) {
                proof {
                    assert(hs[i as int].0 == kind_code(SegmentKind::Dynamic) && !dyn_fits(hs[i as int], bytes@.len()));
                }
                return Err(RelocationError::BadDynamicSegment);
            }
        }
        i = i + 1;
    }
    let mut rela: Option<u64> = None;
    let mut rela_size: Option<u64> = None;
    let mut rela_ent: Option<u64> = None;
    let mut i: usize = 0;
    proof {
        assert(hs.take(0) =~= Seq::<(u8, u64, u64, u64, u64, u32)>::empty());
    }
    while i < headers.len()
        invariant
            i <= headers@.len(),
            headers@.len() < 0x10000,
            len == bytes@.len(),
            le_bytes_of_words(words@).take(len as int) == bytes@,
            len <= 8 * words@.len(),
            program_table_fits(bytes@),
            elf_program_headers(bytes@) == Some(hs),
            hs == headers_view(headers@),
            is_64_bit(bytes@),
            forall|j: int| 0 <= j < headers@.len() && (#[trigger] hs[j]).0 == kind_code(SegmentKind::Dynamic) ==> dyn_fits(hs[j], len as nat),
            rela_tags(all_dyn_entries(bytes@, hs.take(i as int))) == (rela, rela_size, rela_ent),
        decreases headers@.len() - i,
    {
        let h = headers[i];
        let ghost before = all_dyn_entries(bytes@, hs.take(i as int));
        proof {
            assert(hs[i as int] == h@);
            assert(hs.take(i + 1).drop_last() =~= hs.take(i as int));
            assert(hs.take(i + 1).last() == hs[i as int]);
            assert(hs.take(i + 1).len() - 1 == i);
        }
        if h.kind == SegmentKind::Dynamic {
            let entries = match read_dynamic_entries(words.as_slice(), len, i as u16) {
                Ok(v) => v,
                Err(e) => {
                    return Err(RelocationError::Elf(e));
                },
            };
            let ghost es = dyn_entries_view(entries@);
            let mut k: usize = 0;
            proof {
                assert(before + es.take(0) =~= before);
            }
            while k < entries.len()
                invariant
                    k <= entries@.len(),
                    es == dyn_entries_view(entries@),
                    rela_tags(before + es.take(k as int)) == (rela, rela_size, rela_ent),
                decreases entries@.len() - k,
            {
                let e = entries[k];
                proof {
                    assert((before + es.take(k + 1)).drop_last() =~= before + es.take(k as int));
                    assert((before + es.take(k + 1)).last() == dyn_entry_view(e));
                }
                match e {
                    DynEntry::Rela(v) => rela = Some(v),
                    DynEntry::RelaSize(v) => rela_size = Some(v),
                    DynEntry::RelaEnt(v) => rela_ent = Some(v),
                    DynEntry::Other => {},
                }
                k = k + 1;
            }
            proof {
                assert(es.take(es.len() as int) =~= es);
            }
        }
        i = i + 1;
    }
    proof {
        assert(hs.take(hs.len() as int) =~= hs);
    }
    match (rela, rela_size, rela_ent) {
        (Some(offset), Some(size), Some(entry_size)) => {
            if entry_size == 0 || size % entry_size != 0 {
                Err(RelocationError::NotWholeEntries)
            } else {
                let count = relocation_count(size, entry_size);
                Ok(RelocationTable { offset, size, entry_size, count })
            }
        },
        _ => Err(RelocationError::MissingTag),
    }
}

/// The number of entries of a relocation table of `table_size` bytes whose
/// entries are `entry_size` bytes; the table must hold whole entries.
pub fn relocation_count(table_size: u64, entry_size: u64) -> (r: u64)
    requires
        entry_size > 0,
        table_size % entry_size == 0,
    ensures
        r * entry_size == table_size,
{
    let r = table_size / entry_size;
    proof {
        vstd::arithmetic::div_mod::lemma_fundamental_div_mod(table_size as int, entry_size as int);
        vstd::arithmetic::mul::lemma_mul_is_commutative(r as int, entry_size as int);
    }
    r
}

/// The loadable span covers every loadable segment: each starts at or
/// after the span's start and ends at or before its end.
pub proof fn lemma_load_span_covers(h: Seq<SegmentHeader>)
    requires
        load_ends_fit(h),
    ensures
        forall|i: int|
            0 <= i < h.len() && (#[trigger] h[i]).kind == SegmentKind::Load ==> load_span_spec(h).0
                <= h[i].virtual_addr && h[i].virtual_addr + h[i].mem_size <= load_span_spec(h).1,
    decreases h.len(),
{
    if h.len() > 0 {
        let p = h.drop_last();
        assert(load_ends_fit(p)) by {
            assert forall|i: int| 0 <= i < p.len() && (#[trigger] p[i]).kind == SegmentKind::Load
                implies p[i].virtual_addr + p[i].mem_size <= u64::MAX by {
                assert(p[i] == h[i]);
            }
        }
        lemma_load_span_covers(p);
        assert forall|i: int|
            0 <= i < h.len() && (#[trigger] h[i]).kind == SegmentKind::Load implies load_span_spec(h).0
                <= h[i].virtual_addr && h[i].virtual_addr + h[i].mem_size <= load_span_spec(h).1 by {
            if i < h.len() - 1 {
                assert(p[i] == h[i]);
            }
        }
    }
}

} // verus!
