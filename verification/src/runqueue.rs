//! The decisions of a per-CPU local run queue with work stealing.
//!
//! The queue is a ring of `LOCAL_QUEUE_CAPACITY` slots with a 32-bit tail
//! and a 64-bit head word that packs two 32-bit positions: the position a
//! stealer is working from (`steal`, upper half) and the real head (`real_head`,
//! lower half). Positions wrap around modulo 2^32.
//!
//! The atomics, the slots and the overflow ("inject") queue belong to the
//! caller; this module decides, from the values read, where a task goes.

use vstd::prelude::*;

verus! {

/// The number of slots of a local queue.
pub const LOCAL_QUEUE_CAPACITY: usize = 256;

/// Maps a position to its slot.
pub const MASK: usize = 255;

/// How many tasks a full queue hands over to the inject queue, besides the
/// task being pushed.
pub const NUM_TASKS_TAKEN: u32 = 128;

/// 2^32.
pub open spec fn two32() -> int {
    0x1_0000_0000
}

/// The distance from position `from` forward to position `to`, modulo 2^32.
pub open spec fn ring_distance(from: u32, to: u32) -> int {
    ((to as int - from as int) % two32())
}

/// The position `n` steps after `pos`, modulo 2^32.
pub open spec fn ring_advance(pos: u32, n: int) -> u32 {
    ((pos as int + n) % two32()) as u32
}

/// Splits a head word into `(steal, real_head)`: the position a stealer is
/// working on (upper 32 bits) and the real head (lower 32 bits).
pub fn unpack(n: u64) -> (r: (u32, u32))
    ensures
        r.0 as int == n as int / two32(),
        r.1 as int == n as int % two32(),
{
    let real_head = n & 0xFFFF_FFFFu64;
    let steal = n >> 32u64;
    assert(n & 0xFFFF_FFFFu64 == n % 0x1_0000_0000) by (bit_vector);
    assert(n >> 32u64 == n / 0x1_0000_0000) by (bit_vector);
    (steal as u32, real_head as u32)
}

/// Joins a stealer position and a real_head head into a head word.
pub fn pack(steal: u32, real_head: u32) -> (r: u64)
    ensures
        r as int == steal as int * two32() + real_head as int,
{
    let r = (real_head as u64) | ((steal as u64) << 32u64);
    let s = steal as u64;
    let l = real_head as u64;
    assert((l | (s << 32u64)) == s * 0x1_0000_0000 + l) by (bit_vector)
        requires
            s < 0x1_0000_0000,
            l < 0x1_0000_0000,
    ;
    r
}

/// Unpacking a packed head word gives back its two halves.
pub proof fn lemma_unpack_pack(steal: u32, real_head: u32)
    ensures
        ({
            let n = steal as int * two32() + real_head as int;
            n / two32() == steal && n % two32() == real_head
        }),
{
    let n = steal as int * two32() + real_head as int;
    vstd::arithmetic::div_mod::lemma_fundamental_div_mod_converse(n, two32(), steal as int, real_head as int);
}

/// Packing the two halves of a head word gives back the word.
pub proof fn lemma_pack_unpack(n: u64)
    ensures
        (n as int / two32()) * two32() + n as int % two32() == n,
{
    vstd::arithmetic::div_mod::lemma_fundamental_div_mod(n as int, two32());
    vstd::arithmetic::mul::lemma_mul_is_commutative(n as int / two32(), two32());
}

/// Where a task pushed to the back of a local queue goes.
#[derive(Clone, Copy, Debug, PartialEq, Eq, Structural)]
pub enum PushDecision {
    /// There is room: write the task into `slot` and publish `new_tail`.
    Store { slot: usize, new_tail: u32 },
    /// The queue is full but a stealer is freeing room: push the task to the
    /// inject queue.
    Inject,
    /// The queue is full and nobody is stealing: move half of it, plus the
    /// task, to the inject queue, claiming the tasks from `head` to `tail`.
    Overflow { head: u32, tail: u32 },
}

/// Decides where a task pushed to the back of a local queue goes, given the
/// head word and the tail read from the queue.
pub fn push_back_decision(head: u64, tail: u32) -> (r: PushDecision)
    ensures
        ({
            let steal = head as int / two32();
            let real_head = head as int % two32();
            if ring_distance(steal as u32, tail) < LOCAL_QUEUE_CAPACITY {
                r == PushDecision::Store {
                    slot: (tail as int % LOCAL_QUEUE_CAPACITY as int) as usize,
                    new_tail: ring_advance(tail, 1),
                }
            } else if steal != real_head {
                r == PushDecision::Inject
            } else {
                r == PushDecision::Overflow { head: real_head as u32, tail }
            }
        }),
{
    let (steal, real_head) = unpack(head);
    let distance = tail.wrapping_sub(steal);
    proof {
        vstd::arithmetic::div_mod::lemma_mod_bound(head as int, two32());
        lemma_wrapping_sub_is_distance(tail, steal);
    }
    if (distance as usize) < LOCAL_QUEUE_CAPACITY {
        let slot = (tail as usize) & MASK;
        assert(slot == tail as usize % 256) by (bit_vector)
            requires
                slot == (tail as usize) & 255usize,
        ;
        let new_tail = tail.wrapping_add(1);
        proof {
            lemma_wrapping_add_is_advance(tail, 1);
        }
        PushDecision::Store { slot, new_tail }
    } else if steal != real_head {
        PushDecision::Inject
    } else {
        PushDecision::Overflow { head: real_head, tail }
    }
}

proof fn lemma_wrapping_sub_is_distance(a: u32, b: u32)
    ensures
        vstd::wrapping::u32_specs::wrapping_sub(a, b) as int == ring_distance(b, a),
{
    if a as int - b as int >= 0 {
        vstd::arithmetic::div_mod::lemma_small_mod((a as int - b as int) as nat, two32() as nat);
    } else {
        vstd::arithmetic::div_mod::lemma_mod_add_multiples_vanish(a as int - b as int, two32());
        vstd::arithmetic::div_mod::lemma_small_mod((a as int - b as int + two32()) as nat, two32() as nat);
    }
}

proof fn lemma_wrapping_add_is_advance(a: u32, b: u32)
    ensures
        vstd::wrapping::u32_specs::wrapping_add(a, b) == ring_advance(a, b as int),
{
    if a as int + b as int >= two32() {
        vstd::arithmetic::div_mod::lemma_mod_sub_multiples_vanish(a as int + b as int, two32());
        vstd::arithmetic::div_mod::lemma_small_mod((a as int + b as int - two32()) as nat, two32() as nat);
    } else {
        vstd::arithmetic::div_mod::lemma_small_mod((a as int + b as int) as nat, two32() as nat);
    }
}

/// The head words of the claim a full queue makes before handing half of
/// its tasks to the inject queue: the word it expects (`head` in both
/// halves) and the word it installs (`head` advanced by `NUM_TASKS_TAKEN` in
/// both halves).
///
/// The queue must be full: `tail` is `LOCAL_QUEUE_CAPACITY` positions after
/// `head`.
pub fn overflow_claim(head: u32, tail: u32) -> (r: (u64, u64))
    requires
        ring_distance(head, tail) == LOCAL_QUEUE_CAPACITY,
    ensures
        r.0 as int == head as int * two32() + head as int,
        r.1 as int == ring_advance(head, NUM_TASKS_TAKEN as int) as int * two32() + ring_advance(
            head,
            NUM_TASKS_TAKEN as int,
        ) as int,
{
    let prev = pack(head, head);
    let next_head = head.wrapping_add(NUM_TASKS_TAKEN);
    proof {
        lemma_wrapping_add_is_advance(head, NUM_TASKS_TAKEN);
    }
    let next = pack(next_head, next_head);
    (prev, next)
}

/// The slots, in order, of the `NUM_TASKS_TAKEN` tasks that a full queue
/// whose head is `head` hands over to the inject queue.
pub fn overflow_batch_slots(head: u32) -> (r: Vec<usize>)
    ensures
        r@.len() == NUM_TASKS_TAKEN,
        forall|i: int| 0 <= i < NUM_TASKS_TAKEN ==> #[trigger] r@[i] as int == (head as int + i) % (
        LOCAL_QUEUE_CAPACITY as int),
{
    let mut out: Vec<usize> = Vec::new();
    let mut i: u64 = 0;
    while i < NUM_TASKS_TAKEN as u64
        invariant
            i <= NUM_TASKS_TAKEN,
            out@.len() == i,
            forall|j: int| 0 <= j < i ==> #[trigger] out@[j] as int == (head as int + j) % (
            LOCAL_QUEUE_CAPACITY as int),
        decreases NUM_TASKS_TAKEN - i,
    {
        let pos = i + head as u64;
        let slot_bits = pos & 255u64;
        proof {
            assert(slot_bits == pos % 256) by (bit_vector)
                requires
                    slot_bits == pos & 255u64,
            ;
        }
        let slot = slot_bits as usize;
        out.push(slot);
        proof {
            assert(out@[i as int] as int == (head as int + i) % (LOCAL_QUEUE_CAPACITY as int));
        }
        i = i + 1;
    }
    out
}

/// The slot of a position is its offset modulo the capacity.
pub proof fn lemma_slot_is_position_mod_capacity(pos: u32)
    ensures
        (pos as usize) & (MASK as usize) == pos as int % LOCAL_QUEUE_CAPACITY as int,
{
    let p = pos as usize;
    assert(p & 255usize == p % 256) by (bit_vector);
}

} // verus!
