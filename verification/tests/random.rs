use theseus::random::{choose_seed, fill_bytes, new_csprng, next_u32, next_u64, Csprng};

#[test]
fn zero_seed_gives_the_chacha20_key_stream() {
    let mut rng = Csprng::from_seed([0u8; 32]);
    assert_eq!(next_u32(&mut rng), 0xade0b876);
    assert_eq!(next_u32(&mut rng), 0x903df1a0);
}

#[test]
fn same_seed_same_stream() {
    let seed = [7u8; 32];
    let mut a = Csprng::from_seed(seed);
    let mut b = Csprng::from_seed(seed);
    for _ in 0..100 {
        assert_eq!(next_u32(&mut a), next_u32(&mut b));
    }
    assert_eq!(next_u64(&mut a), next_u64(&mut b));
    let mut x = [0u8; 13];
    let mut y = [0u8; 13];
    fill_bytes(&mut a, &mut x);
    fill_bytes(&mut b, &mut y);
    assert_eq!(x, y);
}

#[test]
fn a_u64_is_two_words_low_first() {
    let seed = [3u8; 32];
    let mut a = Csprng::from_seed(seed);
    let mut b = Csprng::from_seed(seed);
    let lo = next_u32(&mut a) as u64;
    let hi = next_u32(&mut a) as u64;
    assert_eq!(next_u64(&mut b), lo | (hi << 32));
}

#[test]
fn filling_takes_whole_words_little_endian() {
    let seed = [9u8; 32];
    let mut a = Csprng::from_seed(seed);
    let mut b = Csprng::from_seed(seed);
    let w0 = next_u32(&mut a).to_le_bytes();
    let w1 = next_u32(&mut a).to_le_bytes();
    let w2 = next_u32(&mut a);
    let mut buf = [0u8; 6];
    fill_bytes(&mut b, &mut buf);
    assert_eq!(&buf[..4], &w0);
    assert_eq!(&buf[4..], &w1[..2]);
    assert_eq!(next_u32(&mut b), w2);
}

#[test]
fn seed_choice_prefers_rdseed_then_rdrand() {
    let s = [5u8; 32];
    let r = [6u8; 32];
    assert_eq!(choose_seed(Ok(s), Ok(r)), s);
    assert_eq!(choose_seed(Err(()), Ok(r)), r);
    assert_eq!(choose_seed(Err(()), Err(())), [1u8; 32]);
}

#[test]
fn a_hardware_seeded_generator_runs() {
    let mut rng = new_csprng();
    let mut buf = [0u8; 64];
    fill_bytes(&mut rng, &mut buf);
    let _ = next_u64(&mut rng);
}
