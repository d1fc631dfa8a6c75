use theseus::idle::{is_idle, needs_rescheduling, IdleBitmap, IDLE_CPUS};

#[test]
fn new_bitmap_has_no_idle_cpu() {
    let b = IdleBitmap::new();
    for c in 0..IDLE_CPUS {
        assert!(!is_idle(&b, c));
    }
}

#[test]
fn set_and_clear_touch_one_cpu() {
    let mut b = IdleBitmap::new();
    b.set_idle(3);
    b.set_idle(70);
    b.set_idle(191);
    assert!(is_idle(&b, 3));
    assert!(is_idle(&b, 70));
    assert!(is_idle(&b, 191));
    assert!(!is_idle(&b, 4));
    assert!(!is_idle(&b, 6));
    assert!(b.clear_idle(70));
    assert!(!b.clear_idle(70));
    assert!(!is_idle(&b, 70));
    assert!(is_idle(&b, 3));
}

#[test]
fn toggle_flips_the_bit() {
    let mut b = IdleBitmap::new();
    b.toggle_idle(65);
    assert!(is_idle(&b, 65));
    b.toggle_idle(65);
    assert!(!is_idle(&b, 65));
}

#[test]
fn top_bit_query_sees_only_the_highest_set_bit() {
    let mut b = IdleBitmap::new();
    b.set_idle(5);
    assert!(b.bit_is_top(5));
    b.set_idle(9);
    assert!(!b.bit_is_top(5));
    assert!(b.bit_is_top(9));
}

#[test]
fn idle_cpu_wakes_for_work_or_without_a_queue() {
    assert!(needs_rescheduling(None));
    assert!(needs_rescheduling(Some(false)));
    assert!(!needs_rescheduling(Some(true)));
}
