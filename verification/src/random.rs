//! A cryptographically secure random number generator: ChaCha20, seeded
//! once from the CPU's `RDSEED` instruction, else its `RDRAND` instruction,
//! else (when neither works) a fixed seed.
//!
//! The generator yields the 32-bit words of its key stream in order; a
//! 64-bit value takes two words, and filling a buffer takes one word for
//! every four bytes or part of them.

use vstd::prelude::*;
use rand_chacha::ChaCha20Rng;
use rdrand::{RdRand, RdSeed};

verus! {

#[verifier::external_type_specification]
#[verifier::external_body]
pub struct ExChaCha20Rng(ChaCha20Rng);

#[verifier::external_type_specification]
#[verifier::external_body]
pub struct ExRdSeed(RdSeed);

#[verifier::external_type_specification]
#[verifier::external_body]
pub struct ExRdRand(RdRand);

/// Word `k` of the ChaCha20 key stream that `rand_chacha` generates from
/// the 32-byte `seed` (stream 0, from block 0).
pub uninterp spec fn chacha20_word(seed: Seq<u8>, k: nat) -> u32;

/// Byte `i` of the bytes that filling from stream position `pos` gives:
/// the words from `pos` on, each in little-endian order.
pub open spec fn stream_byte(seed: Seq<u8>, pos: nat, i: nat) -> u8 {
    ((chacha20_word(seed, pos + i / 4) >> (8 * (i % 4)) as u32) & 0xff) as u8
}

/// The number of words that filling `n` bytes takes.
pub open spec fn words_for_bytes(n: nat) -> nat {
    (n + 3) / 4
}

/// A ChaCha20 generator with the seed it was made from and the number of
/// words it has handed out.
pub struct Csprng {
    rng: ChaCha20Rng,
    seed: Ghost<Seq<u8>>,
    pos: Ghost<nat>,
}

impl Csprng {
    /// The seed.
    pub closed spec fn spec_seed(&self) -> Seq<u8> {
        self.seed@
    }

    /// The number of key-stream words handed out so far.
    pub closed spec fn spec_pos(&self) -> nat {
        self.pos@
    }

    /// A generator seeded with `seed` (`SeedableRng::from_seed`).
    pub fn from_seed(seed: [u8; 32]) -> (r: Csprng)
        ensures
            r.spec_seed() == seed@,
            r.spec_pos() == 0,
    {
        chacha_from_seed(seed)
    }
}

/// `rand_chacha::ChaCha20Rng::from_seed`: claimed to make a generator at
/// the start of the key stream of `seed`.
#[verifier::external_body]
fn chacha_from_seed(seed: [u8; 32]) -> (r: Csprng)
    ensures
        r.spec_seed() == seed@,
        r.spec_pos() == 0,
{
    Csprng { rng: rand_chacha::rand_core::SeedableRng::from_seed(seed), seed: Ghost(seed@), pos: Ghost(0) }
}

/// `ChaCha20Rng::next_u32`: claimed to hand out the next key-stream word.
#[verifier::external_body]
fn chacha_next_u32(c: &mut Csprng) -> (r: u32)
    ensures
        r == chacha20_word(old(c).spec_seed(), old(c).spec_pos()),
        final(c).spec_seed() == old(c).spec_seed(),
        final(c).spec_pos() == old(c).spec_pos() + 1,
{
    rand_chacha::rand_core::RngCore::next_u32(&mut c.rng)
}

/// `ChaCha20Rng::next_u64`: claimed to join the next two key-stream words,
/// the first in the low half.
#[verifier::external_body]
fn chacha_next_u64(c: &mut Csprng) -> (r: u64)
    ensures
        r as int == chacha20_word(old(c).spec_seed(), old(c).spec_pos()) as int + chacha20_word(
            old(c).spec_seed(),
            old(c).spec_pos() + 1,
        ) as int * 0x1_0000_0000,
        final(c).spec_seed() == old(c).spec_seed(),
        final(c).spec_pos() == old(c).spec_pos() + 2,
{
    rand_chacha::rand_core::RngCore::next_u64(&mut c.rng)
}

/// `ChaCha20Rng::fill_bytes`: claimed to fill `dest` with the bytes of the
/// next key-stream words in little-endian order, using up one word for
/// every four bytes or part of them.
#[verifier::external_body]
fn chacha_fill_bytes(c: &mut Csprng, dest: &mut [u8])
    ensures
        final(dest)@.len() == old(dest)@.len(),
        forall|i: int| 0 <= i < final(dest)@.len() ==> #[trigger] final(dest)@[i] == stream_byte(
            old(c).spec_seed(),
            old(c).spec_pos(),
            i as nat,
        ),
        final(c).spec_seed() == old(c).spec_seed(),
        final(c).spec_pos() == old(c).spec_pos() + words_for_bytes(old(dest)@.len()),
{
    rand_chacha::rand_core::RngCore::fill_bytes(&mut c.rng, dest)
}

/// Returns the next random `u32`.
pub fn next_u32(rng: &mut Csprng) -> (r: u32)
    ensures
        r == chacha20_word(old(rng).spec_seed(), old(rng).spec_pos()),
        final(rng).spec_seed() == old(rng).spec_seed(),
        final(rng).spec_pos() == old(rng).spec_pos() + 1,
{
    chacha_next_u32(rng)
}

/// Returns the next random `u64`.
pub fn next_u64(rng: &mut Csprng) -> (r: u64)
    ensures
        r as int == chacha20_word(old(rng).spec_seed(), old(rng).spec_pos()) as int + chacha20_word(
            old(rng).spec_seed(),
            old(rng).spec_pos() + 1,
        ) as int * 0x1_0000_0000,
        final(rng).spec_seed() == old(rng).spec_seed(),
        final(rng).spec_pos() == old(rng).spec_pos() + 2,
{
    chacha_next_u64(rng)
}

/// Fills `dest` with random bytes.
pub fn fill_bytes(rng: &mut Csprng, dest: &mut [u8])
    ensures
        final(dest)@.len() == old(dest)@.len(),
        forall|i: int| 0 <= i < final(dest)@.len() ==> #[trigger] final(dest)@[i] == stream_byte(
            old(rng).spec_seed(),
            old(rng).spec_pos(),
            i as nat,
        ),
        final(rng).spec_seed() == old(rng).spec_seed(),
        final(rng).spec_pos() == old(rng).spec_pos() + words_for_bytes(old(dest)@.len()),
{
    chacha_fill_bytes(rng, dest)
}

/// `rdrand::RdSeed::new`: whether the CPU offers `RDSEED` (no claim).
#[verifier::external_body]
fn rdseed_new() -> (r: Option<RdSeed>) {
    RdSeed::new().ok()
}

/// `RdSeed::try_fill_bytes`: fills `dest` with hardware random bytes and
/// reports success; claimed only to keep the length of `dest`.
#[verifier::external_body]
fn rdseed_try_fill(g: &mut RdSeed, dest: &mut [u8]) -> (ok: bool)
    ensures
        final(dest)@.len() == old(dest)@.len(),
{
    g.try_fill_bytes(dest).is_ok()
}

/// `rdrand::RdRand::new`: whether the CPU offers `RDRAND` (no claim).
#[verifier::external_body]
fn rdrand_new() -> (r: Option<RdRand>) {
    RdRand::new().ok()
}

/// `RdRand::try_fill_bytes`: fills `dest` with hardware random bytes and
/// reports success; claimed only to keep the length of `dest`.
#[verifier::external_body]
fn rdrand_try_fill(g: &mut RdRand, dest: &mut [u8]) -> (ok: bool)
    ensures
        final(dest)@.len() == old(dest)@.len(),
{
    g.try_fill_bytes(dest).is_ok()
}

/// Tries to make a 32-byte seed with the `RDSEED` instruction.
pub fn rdseed_seed() -> (r: Result<[u8; 32], ()>) {
    match rdseed_new() {
        Some(mut generator) => {
            let mut seed = [0u8; 32];
            if rdseed_try_fill(&mut generator, &mut seed) {
                Ok(seed)
            } else {
                Err(())
            }
        },
        None => Err(()),
    }
}

/// Tries to make a 32-byte seed with the `RDRAND` instruction.
pub fn rdrand_seed() -> (r: Result<[u8; 32], ()>) {
    match rdrand_new() {
        Some(mut generator) => {
            let mut seed = [0u8; 32];
            if rdrand_try_fill(&mut generator, &mut seed) {
                Ok(seed)
            } else {
                Err(())
            }
        },
        None => Err(()),
    }
}

/// The seed used when the hardware gives none: 32 bytes of value 1.
pub open spec fn fallback_seed() -> Seq<u8> {
    Seq::new(32, |i: int| 1u8)
}

/// The seed to use: the first of the two hardware seeds that was obtained,
/// else the fallback seed.
pub fn choose_seed(rdseed: Result<[u8; 32], ()>, rdrand: Result<[u8; 32], ()>) -> (r: [u8; 32])
    ensures
        rdseed matches Ok(s) ==> r@ == s@,
        rdseed is Err ==> (rdrand matches Ok(s) ==> r@ == s@),
        rdseed is Err && rdrand is Err ==> r@ == fallback_seed(),
{
    match rdseed {
        Ok(s) => s,
        Err(_) => match rdrand {
            Ok(s) => s,
            Err(_) => {
                let r = [1u8; 32];
                assert(r@ =~= fallback_seed());
                r
            },
        },
    }
}

/// Seeds a new generator from the hardware: `RDSEED` first, then `RDRAND`
/// (tried only when `RDSEED` fails), else the fallback seed.
pub fn new_csprng() -> (r: Csprng)
    ensures
        r.spec_pos() == 0,
{
    let seed = match rdseed_seed() {
        Ok(s) => s,
        Err(_) => choose_seed(Err(()), rdrand_seed()),
    };
    Csprng::from_seed(seed)
}

/// Filling four bytes gives the bytes of the word that [`next_u32`] would
/// hand out, lowest first, and uses up one word as `next_u32` does.
pub proof fn lemma_fill_four_is_one_word(seed: Seq<u8>, pos: nat)
    ensures
        words_for_bytes(4) == 1,
        (stream_byte(seed, pos, 0) as u32) | ((stream_byte(seed, pos, 1) as u32) << 8u32) | ((
        stream_byte(seed, pos, 2) as u32) << 16u32) | ((stream_byte(seed, pos, 3) as u32)
            << 24u32) == chacha20_word(seed, pos),
{
    let w = chacha20_word(seed, pos);
    assert(stream_byte(seed, pos, 0) == ((w >> 0u32) & 0xff) as u8);
    assert(stream_byte(seed, pos, 1) == ((w >> 8u32) & 0xff) as u8);
    assert(stream_byte(seed, pos, 2) == ((w >> 16u32) & 0xff) as u8);
    assert(stream_byte(seed, pos, 3) == ((w >> 24u32) & 0xff) as u8);
    assert((((w >> 0u32) & 0xff) as u8 as u32) | ((((w >> 8u32) & 0xff) as u8 as u32) << 8u32) | ((
    ((w >> 16u32) & 0xff) as u8 as u32) << 16u32) | ((((w >> 24u32) & 0xff) as u8 as u32) << 24u32)
        == w) by (bit_vector);
}

} // verus!
