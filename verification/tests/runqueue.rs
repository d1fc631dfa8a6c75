use theseus::runqueue::{
    overflow_batch_slots, overflow_claim, pack, push_back_decision, unpack, PushDecision,
    LOCAL_QUEUE_CAPACITY, NUM_TASKS_TAKEN,
};

#[test]
fn pack_and_unpack_are_inverse() {
    assert_eq!(unpack(pack(7, 9)), (7, 9));
    assert_eq!(pack(1, 2), (1u64 << 32) | 2);
    assert_eq!(unpack(0xFFFF_FFFF_0000_0001), (0xFFFF_FFFF, 1));
    let n = 0x1234_5678_9ABC_DEF0u64;
    let (s, h) = unpack(n);
    assert_eq!(pack(s, h), n);
}

#[test]
fn room_in_the_queue_stores_the_task() {
    assert_eq!(push_back_decision(pack(0, 0), 0), PushDecision::Store { slot: 0, new_tail: 1 });
    assert_eq!(push_back_decision(pack(200, 200), 300), PushDecision::Store { slot: 44, new_tail: 301 });
    assert_eq!(
        push_back_decision(pack(u32::MAX, u32::MAX), u32::MAX),
        PushDecision::Store { slot: 255, new_tail: 0 }
    );
}

#[test]
fn full_queue_with_a_stealer_injects() {
    assert_eq!(push_back_decision(pack(5, 6), 5 + 256), PushDecision::Inject);
}

#[test]
fn full_queue_without_a_stealer_overflows() {
    assert_eq!(
        push_back_decision(pack(5, 5), 5 + 256),
        PushDecision::Overflow { head: 5, tail: 261 }
    );
    assert_eq!(
        push_back_decision(pack(u32::MAX - 10, u32::MAX - 10), 245),
        PushDecision::Overflow { head: u32::MAX - 10, tail: 245 }
    );
}

#[test]
fn overflow_claims_half_the_queue() {
    let (expected, new) = overflow_claim(5, 261);
    assert_eq!(expected, pack(5, 5));
    assert_eq!(new, pack(5 + NUM_TASKS_TAKEN, 5 + NUM_TASKS_TAKEN));
    let (_, wrapped) = overflow_claim(u32::MAX, 255);
    assert_eq!(wrapped, pack(127, 127));
}

#[test]
fn overflow_batch_takes_consecutive_slots() {
    let slots = overflow_batch_slots(200);
    assert_eq!(slots.len(), NUM_TASKS_TAKEN as usize);
    assert_eq!(slots[0], 200);
    assert_eq!(slots[55], 255);
    assert_eq!(slots[56], 0);
    assert_eq!(slots[127], 71);
    assert!(slots.iter().all(|s| *s < LOCAL_QUEUE_CAPACITY));
}
