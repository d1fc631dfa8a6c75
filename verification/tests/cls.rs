use theseus::cls::{allocate, next_multiple, ClsImage, CLS_REGION_SIZE};

#[test]
fn next_multiple_rounds_up() {
    assert_eq!(next_multiple(0, 8), 0);
    assert_eq!(next_multiple(1, 8), 8);
    assert_eq!(next_multiple(8, 8), 8);
    assert_eq!(next_multiple(9, 4), 12);
    assert_eq!(next_multiple(7, 1), 7);
}

#[test]
fn allocations_are_aligned_and_copy_their_image() {
    let mut state = ClsImage::new();
    assert_eq!(state.used(), 0);
    let a = allocate(&mut state, 3, 1, &[1, 2, 3]);
    assert_eq!(a, 0);
    assert_eq!(state.used(), 3);
    let b = allocate(&mut state, 8, 8, &[7; 8]);
    assert_eq!(b, 8);
    assert_eq!(state.used(), 16);
    assert_eq!(&state.image()[0..3], &[1, 2, 3]);
    assert_eq!(&state.image()[8..16], &[7; 8]);
    let c = allocate(&mut state, 2, 4, &[5, 6]);
    assert_eq!(c, 16);
    assert!(state.used() <= CLS_REGION_SIZE);
}
