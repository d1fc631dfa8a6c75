use theseus::frame_allocator::{bitmap_layout, first_large_region, highest_end, BitmapLayout, RegionSummary};

fn r(start: usize, len: usize, usable: bool) -> RegionSummary {
    RegionSummary { start, len, usable }
}

#[test]
fn bitmaps_cover_up_to_the_highest_region_end() {
    let regions = [r(0x1000, 0x1000, true), r(0x100000, 0x800, false), r(0x8000, 0x100000, true)];
    assert_eq!(highest_end(&regions), 0x108000);
    assert_eq!(
        bitmap_layout(&regions),
        BitmapLayout { array_len: 0x21000, reserved_offset: 0x108000, size: 0x210000 }
    );
    assert_eq!(highest_end(&[]), 0);
}

#[test]
fn bitmaps_go_in_the_first_large_usable_region() {
    let regions = [r(0, 0x100, true), r(0x1000, 0x10000, false), r(0x20000, 0x8000, true), r(0x40000, 0x9000, true)];
    assert_eq!(first_large_region(&regions, 0x4000), Some(2));
    assert_eq!(first_large_region(&regions, 0x8001), Some(3));
    assert_eq!(first_large_region(&regions, 0x10000), None);
}
