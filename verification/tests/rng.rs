use idlescreen::rng::{seed_from_nanos, LcgRng};

#[test]
fn same_seed_gives_same_stream() {
    let mut a = LcgRng::new(42);
    let mut b = LcgRng::new(42);
    for _ in 0..16 {
        assert_eq!(a.next_u64(), b.next_u64());
    }
}

#[test]
fn next_u64_follows_the_lcg_step() {
    let mut r = LcgRng::new(2);
    // seed 2 becomes 3 (forced odd)
    let expected = 3u64.wrapping_mul(6364136223846793005).wrapping_add(1442695040888963407);
    assert_eq!(r.next_u64(), expected);
}

#[test]
fn next_usize_stays_below_max() {
    let mut r = LcgRng::new(7);
    assert_eq!(r.next_usize(0), 0);
    for _ in 0..100 {
        assert!(r.next_usize(10) < 10);
    }
}

#[test]
fn random_generators_are_usable() {
    let mut r = LcgRng::new_random();
    let _ = r.next_u64();
}

#[test]
fn clock_reading_seeds_with_low_64_bits() {
    assert_eq!(seed_from_nanos(None), 1);
    assert_eq!(seed_from_nanos(Some(1_700_000_000_123_456_789)), 1_700_000_000_123_456_789);
    assert_eq!(seed_from_nanos(Some((5u128 << 64) + 42)), 42);
}
