use theseus::elf_load::{
    check_program_table, convert_to_pte_flags, copy_segment, crate_load_span, executable_headers,
    entry_point, load_span, place_segments, relocation_table, section_addresses, check_section_table,
    ExecutableError, PlacementError, RelocationError, RelocationTable, SegmentPlacement,
    program_headers, relocation_count, sections_in_segment, SegmentHeader, SegmentKind,
    load_segments, ImageError,
};

fn put(b: &mut [u8], at: usize, bytes: &[u8]) {
    b[at..at + bytes.len()].copy_from_slice(bytes);
}

/// A 64-bit ELF file with one loadable segment.
fn tiny_elf() -> Vec<u8> {
    let mut b = vec![0u8; 120];
    put(&mut b, 0, &[0x7f, b'E', b'L', b'F', 2, 1, 1]);
    put(&mut b, 16, &2u16.to_le_bytes());
    put(&mut b, 18, &0x3Eu16.to_le_bytes());
    put(&mut b, 20, &1u32.to_le_bytes());
    put(&mut b, 24, &0x1000u64.to_le_bytes());
    put(&mut b, 32, &64u64.to_le_bytes());
    put(&mut b, 52, &64u16.to_le_bytes());
    put(&mut b, 54, &56u16.to_le_bytes());
    put(&mut b, 56, &1u16.to_le_bytes());
    put(&mut b, 64, &1u32.to_le_bytes());
    put(&mut b, 68, &5u32.to_le_bytes());
    put(&mut b, 72, &0u64.to_le_bytes());
    put(&mut b, 80, &0x1000u64.to_le_bytes());
    put(&mut b, 88, &0x1000u64.to_le_bytes());
    put(&mut b, 96, &0x10u64.to_le_bytes());
    put(&mut b, 104, &0x20u64.to_le_bytes());
    put(&mut b, 112, &0x1000u64.to_le_bytes());
    b
}

fn seg(kind: SegmentKind, virtual_addr: u64, mem_size: u64) -> SegmentHeader {
    SegmentHeader { kind, virtual_addr, mem_size, file_size: 0, offset: 0, flags: 0 }
}

#[test]
fn reads_the_program_headers_of_an_elf_file() {
    let b = tiny_elf();
    assert!(check_program_table(&b));
    let h = program_headers(&b).expect("valid ELF");
    assert_eq!(h.len(), 1);
    assert_eq!(h[0].kind, SegmentKind::Load);
    assert_eq!(h[0].virtual_addr, 0x1000);
    assert_eq!(h[0].mem_size, 0x20);
    assert_eq!(h[0].file_size, 0x10);
    assert_eq!(h[0].offset, 0);
    assert_eq!(h[0].flags, 5);
}

#[test]
fn refuses_what_is_no_elf_file() {
    let garbage = vec![1u8; 80];
    assert!(check_program_table(&garbage));
    assert!(program_headers(&garbage).is_err());
    let mut short = tiny_elf();
    short.truncate(40);
    assert!(check_program_table(&short));
    assert!(program_headers(&short).is_err());
}

#[test]
fn a_table_past_the_end_is_caught_before_reading() {
    let mut b = tiny_elf();
    put(&mut b, 56, &3u16.to_le_bytes());
    assert!(!check_program_table(&b));
    let mut odd = tiny_elf();
    put(&mut odd, 32, &65u64.to_le_bytes());
    assert!(!check_program_table(&odd));
    let mut none = tiny_elf();
    put(&mut none, 32, &0u64.to_le_bytes());
    assert!(check_program_table(&none));
    assert_eq!(program_headers(&none).unwrap().len(), 0);
}

#[test]
fn load_span_covers_the_loadable_segments() {
    let h = [
        seg(SegmentKind::Load, 0x2000, 0x100),
        seg(SegmentKind::Dynamic, 0x0, 0x10),
        seg(SegmentKind::Load, 0x1000, 0x10),
    ];
    assert_eq!(load_span(&h), (0x1000, 0x2100, 2));
    assert_eq!(load_span(&[]), (u64::MAX, 0, 0));
}

#[test]
fn crate_span_takes_the_lowest_start_and_keeps_the_end() {
    let h = [
        seg(SegmentKind::Load, 0x3000, 0x10),
        seg(SegmentKind::Load, 0x1000, 0),
        seg(SegmentKind::Load, 0x2000, 0x10),
        seg(SegmentKind::Other, 0x10, 0x10),
    ];
    assert_eq!(crate_load_span(&h), Ok((0x2000, u64::MAX)));
    assert_eq!(crate_load_span(&[seg(SegmentKind::Invalid, 0, 0)]), Err(()));
    assert_eq!(
        crate_load_span(&[seg(SegmentKind::Load, 0x10, 0x10), seg(SegmentKind::Invalid, 0, 0), seg(SegmentKind::Interp, 0, 0)]),
        Err(())
    );
}

#[test]
fn copy_segment_copies_then_zero_fills() {
    let mut dest = [9u8; 6];
    copy_segment(&mut dest, &[1, 2, 3, 4], 3);
    assert_eq!(dest, [1, 2, 3, 0, 0, 0]);
}

#[test]
fn sections_within_bounds() {
    assert_eq!(sections_in_segment(&[0x10, 0x200, 0x150, 0x100], 0x100, 0x200), vec![2, 3]);
    assert!(sections_in_segment(&[], 0, 10).is_empty());
}

#[test]
fn page_flags_follow_segment_flags() {
    let f = convert_to_pte_flags(0x4 | 0x1);
    assert!(f.valid && f.executable && !f.writable);
    let g = convert_to_pte_flags(0x6);
    assert!(g.valid && g.writable && !g.executable);
    assert!(!convert_to_pte_flags(0).valid);
}

#[test]
fn relocation_count_divides_the_table() {
    assert_eq!(relocation_count(48, 24), 2);
    assert_eq!(relocation_count(0, 24), 0);
}

#[test]
fn only_position_independent_executables_are_loaded() {
    let mut b = tiny_elf();
    assert_eq!(executable_headers(&b).err(), Some(ExecutableError::NotAnExecutable));
    put(&mut b, 16, &3u16.to_le_bytes());
    let x = executable_headers(&b).expect("an ET_DYN file");
    assert_eq!(x.entry, 0x1000);
    assert_eq!(x.headers.len(), 1);
    assert_eq!(x.headers[0].virtual_addr, 0x1000);
    assert!(matches!(executable_headers(&[0u8; 70]), Err(ExecutableError::Elf(_))));
}

#[test]
fn reading_does_not_depend_on_where_the_bytes_lie() {
    let b = tiny_elf();
    let mut shifted = vec![0u8; b.len() + 1];
    shifted[1..].copy_from_slice(&b);
    let h = program_headers(&shifted[1..]).expect("valid ELF at an odd address");
    assert_eq!(h.len(), 1);
    assert_eq!(h[0].mem_size, 0x20);
}

fn seg_data(kind: SegmentKind, virtual_addr: u64, mem_size: u64, offset: u64, file_size: u64, flags: u32) -> SegmentHeader {
    SegmentHeader { kind, virtual_addr, mem_size, file_size, offset, flags }
}

#[test]
fn placed_segments_go_at_their_virtual_addresses() {
    let h = [
        seg_data(SegmentKind::Load, 0x1000, 0x30, 0x100, 0x10, 6),
        seg_data(SegmentKind::Load, 0x800, 0, 0, 0, 4),
        seg_data(SegmentKind::Dynamic, 0x0, 0x10, 0x0, 0x10, 4),
        seg_data(SegmentKind::Load, 0x0, 0x100, 0x0, 0x100, 5),
    ];
    let (base, v) = place_segments(&h, 0x200).expect("segments fit");
    assert_eq!(base, 0);
    assert_eq!(v.len(), 2);
    assert_eq!(v[0].image_offset, 0x1000);
    assert_eq!((v[0].file_offset, v[0].file_size, v[0].mem_size), (0x100, 0x10, 0x30));
    assert!(v[0].flags.valid && v[0].flags.writable && !v[0].flags.executable);
    assert_eq!(v[1], SegmentPlacement { image_offset: 0, mem_size: 0x100, file_offset: 0, file_size: 0x100, flags: v[1].flags });
    assert!(v[1].flags.executable);
}

#[test]
fn segments_past_the_allocation_or_the_file_are_refused() {
    let above_zero = [seg_data(SegmentKind::Load, 0x1000, 0x100, 0x0, 0x10, 4)];
    assert_eq!(place_segments(&above_zero, 0x200).err(), Some(PlacementError::SegmentDoesNotFit));
    let past_end = [seg_data(SegmentKind::Load, 0, 0x100, 0x180, 0x100, 4)];
    assert_eq!(place_segments(&past_end, 0x200).err(), Some(PlacementError::SegmentDoesNotFit));
    let too_large = [seg_data(SegmentKind::Load, 0, 0x10, 0x0, 0x20, 4)];
    assert_eq!(place_segments(&too_large, 0x200).err(), Some(PlacementError::SegmentDoesNotFit));
    let skipped = [seg_data(SegmentKind::Load, 0x1000, 0, 0x1000, 0x20, 4)];
    assert_eq!(place_segments(&skipped, 0x10).map(|(_, v)| v.len()), Ok(0));
}

#[test]
fn entry_point_is_offset_by_the_load_address() {
    assert_eq!(entry_point(0x40_0000, 0x1234), Some(0x40_1234));
    assert_eq!(entry_point(u64::MAX, 1), None);
}

fn phdr(b: &mut [u8], at: usize, p_type: u32, offset: u64, vaddr: u64, size: u64) {
    put(b, at, &p_type.to_le_bytes());
    put(b, at + 4, &4u32.to_le_bytes());
    put(b, at + 8, &offset.to_le_bytes());
    put(b, at + 16, &vaddr.to_le_bytes());
    put(b, at + 32, &size.to_le_bytes());
    put(b, at + 40, &size.to_le_bytes());
}

/// A 64-bit executable whose one dynamic segment holds `entries`.
fn elf_with_dynamic(entries: &[(u64, u64)]) -> Vec<u8> {
    let mut b = vec![0u8; 0x200];
    put(&mut b, 0, &[0x7f, b'E', b'L', b'F', 2, 1, 1]);
    put(&mut b, 16, &3u16.to_le_bytes());
    put(&mut b, 32, &64u64.to_le_bytes());
    put(&mut b, 54, &56u16.to_le_bytes());
    put(&mut b, 56, &2u16.to_le_bytes());
    phdr(&mut b, 64, 1, 0, 0, 0x200);
    phdr(&mut b, 120, 2, 0x100, 0x100, 16 * entries.len() as u64);
    for (k, (tag, val)) in entries.iter().enumerate() {
        put(&mut b, 0x100 + 16 * k, &tag.to_le_bytes());
        put(&mut b, 0x108 + 16 * k, &val.to_le_bytes());
    }
    b
}

#[test]
fn relocation_table_comes_from_the_last_tags() {
    let b = elf_with_dynamic(&[(7, 0x40), (8, 48), (1, 99), (9, 24), (7, 0x50), (0, 0)]);
    assert!(check_program_table(&b));
    assert_eq!(
        relocation_table(&b),
        Ok(RelocationTable { offset: 0x50, size: 48, entry_size: 24, count: 2 })
    );
}

#[test]
fn relocation_table_errors() {
    let b = elf_with_dynamic(&[(7, 0x40), (8, 48)]);
    assert_eq!(relocation_table(&b), Err(RelocationError::MissingTag));
    let b = elf_with_dynamic(&[(7, 0x40), (8, 50), (9, 24)]);
    assert_eq!(relocation_table(&b), Err(RelocationError::NotWholeEntries));
    let mut b = elf_with_dynamic(&[(7, 0x40), (8, 48), (9, 24)]);
    put(&mut b, 120 + 32, &0x1000u64.to_le_bytes());
    assert_eq!(relocation_table(&b), Err(RelocationError::BadDynamicSegment));
    let b = elf_with_dynamic(&[]);
    assert_eq!(relocation_table(&b), Err(RelocationError::BadDynamicSegment));
    assert!(matches!(relocation_table(&[0u8; 80]), Err(RelocationError::Elf(_))));
}

#[test]
fn section_addresses_of_an_elf_file() {
    let b = tiny_elf();
    assert!(check_section_table(&b));
    assert_eq!(section_addresses(&b).unwrap(), Vec::<u64>::new());
    let mut s = vec![0u8; 128 + 3 * 64];
    s[..120].copy_from_slice(&b);
    put(&mut s, 40, &128u64.to_le_bytes());
    put(&mut s, 58, &64u16.to_le_bytes());
    put(&mut s, 60, &3u16.to_le_bytes());
    put(&mut s, 128 + 16, &0x10u64.to_le_bytes());
    put(&mut s, 128 + 64 + 16, &0x1000u64.to_le_bytes());
    put(&mut s, 128 + 128 + 16, &0x2000u64.to_le_bytes());
    assert!(check_section_table(&s));
    assert_eq!(section_addresses(&s).unwrap(), vec![0x10, 0x1000, 0x2000]);
    put(&mut s, 60, &4u16.to_le_bytes());
    assert!(!check_section_table(&s));
}

#[test]
fn segments_are_copied_into_one_zeroed_image() {
    let file: Vec<u8> = (0..0x40u8).collect();
    let h = [
        seg_data(SegmentKind::Load, 0x0, 0x8, 0x10, 0x4, 5),
        seg_data(SegmentKind::Dynamic, 0x0, 0x4, 0x0, 0x4, 4),
        seg_data(SegmentKind::Load, 0xC, 0x4, 0x20, 0x4, 6),
    ];
    let sections = [0x0, 0x3, 0x8, 0xC, 0xF, 0x10];
    let (base, image, segments) = load_segments(&file, &h, &sections).expect("segments fit");
    assert_eq!(base, 0);
    assert_eq!(image, vec![0x10, 0x11, 0x12, 0x13, 0, 0, 0, 0, 0, 0, 0, 0, 0x20, 0x21, 0x22, 0x23]);
    assert_eq!(segments.len(), 2);
    assert_eq!((segments[0].bounds_start, segments[0].bounds_end), (0x0, 0x8));
    assert_eq!(segments[0].section_ndxs, vec![0, 1]);
    assert!(segments[0].flags.valid && segments[0].flags.executable && !segments[0].flags.writable);
    assert_eq!((segments[1].bounds_start, segments[1].bounds_end), (0xC, 0x10));
    assert_eq!(segments[1].section_ndxs, vec![3, 4]);
    assert!(segments[1].flags.writable);
}

#[test]
fn a_later_segment_overwrites_an_earlier_one() {
    let file: Vec<u8> = (0..0x40u8).collect();
    let h = [
        seg_data(SegmentKind::Load, 0x0, 0x6, 0x10, 0x6, 4),
        seg_data(SegmentKind::Load, 0x2, 0x2, 0x30, 0x1, 4),
    ];
    let (_, image, _) = load_segments(&file, &h, &[]).expect("segments fit");
    assert_eq!(image, vec![0x10, 0x11, 0x30, 0, 0x14, 0x15]);
}

#[test]
fn segments_that_do_not_fit_are_not_loaded() {
    let file = vec![0u8; 0x20];
    let past_end = [seg_data(SegmentKind::Load, 0, 0x10, 0x18, 0x10, 4)];
    assert_eq!(load_segments(&file, &past_end, &[]).err(), Some(ImageError::SegmentDoesNotFit));
    let above_zero = [seg_data(SegmentKind::Load, 0x1000, 0x10, 0x0, 0x10, 4)];
    assert_eq!(load_segments(&file, &above_zero, &[]).err(), Some(ImageError::SegmentDoesNotFit));
    let (base, image, segments) = load_segments(&file, &[], &[]).expect("nothing to load");
    assert_eq!((base, image.len(), segments.len()), (u64::MAX, 0, 0));
}
