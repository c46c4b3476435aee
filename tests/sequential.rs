use mimetize::{RngState, SeededRng};
use rand::rngs::StdRng;
use rand::SeedableRng;

#[test]
fn test_determinism_same_seed() {
    let seed = [42; 32];

    let mut rng1: RngState<i32> = RngState::new(SeededRng::from_seed(seed));
    let mut rng2: RngState<i32> = RngState::new(SeededRng::from_seed(seed));

    assert_eq!(rng1.call(0), rng2.call(0), "Index 0 should match");
    assert_eq!(rng1.call(5), rng2.call(5), "Index 5 should match");
    assert_eq!(rng1.call(100), rng2.call(100), "Index 100 should match");
}

#[test]
fn test_determinism_different_seed() {
    let seed1 = [1; 32];
    let seed2 = [2; 32];

    let mut rng1: RngState<i32> = RngState::new(SeededRng::from_seed(seed1));
    let mut rng2: RngState<i32> = RngState::new(SeededRng::from_seed(seed2));

    assert_ne!(rng1.call(0), rng2.call(0));
}

#[test]
fn test_caching_idempotency() {
    let seed = [55; 32];
    let mut rng: RngState<i32> = RngState::new(SeededRng::from_seed(seed));

    let first_call = rng.call(10);
    let second_call = rng.call(10);

    assert_eq!(
        first_call, second_call,
        "Subsequent calls to the same index must return cached value"
    );
}

#[test]
fn test_filling_gaps() {
    let seed = [10; 32];
    let mut rng: RngState<i32> = RngState::new(SeededRng::from_seed(seed));

    let _ = rng.call(4);

    assert_eq!(
        rng.len(),
        5,
        "Vector should have expanded to size 5 to accommodate index 4"
    );
}

#[test]
fn test_sequential_generation() {
    let seed = [99; 32];
    let mut rng: RngState<i32> = RngState::new(SeededRng::from_seed(seed));

    let v0 = rng.call(0);
    let v1 = rng.call(1);
    let v2 = rng.call(2);

    assert_ne!(v0, v1);
    assert_ne!(v1, v2);
    assert_eq!(rng.len(), 3);
}

#[test]
fn test_different_types() {
    let seed = [7; 32];

    let mut bool_rng: RngState<bool> = RngState::new(SeededRng::from_seed(seed));
    let b = bool_rng.call(0);
    assert!(b == true || b == false);
}

#[test]
fn fresh_cache_is_empty() {
    let rng: RngState<u64> = RngState::new(SeededRng::from_seed([3; 32]));
    assert_eq!(rng.len(), 0);
}

#[test]
fn later_request_matches_first_request_elsewhere() {
    let seed = [10; 32];
    let mut filled: RngState<u32> = RngState::new(SeededRng::from_seed(seed));
    let mut direct: RngState<u32> = RngState::new(SeededRng::from_seed(seed));

    let _ = filled.call(4);
    assert_eq!(filled.len(), 5);
    let later = filled.call(2);
    assert_eq!(filled.len(), 5);

    let first = direct.call(2);
    assert_eq!(direct.len(), 3);
    assert_eq!(later, first);
}

#[test]
fn request_order_does_not_change_values() {
    let seed = [21; 32];
    let mut up: RngState<u64> = RngState::new(SeededRng::from_seed(seed));
    let mut down: RngState<u64> = RngState::new(SeededRng::from_seed(seed));

    let up_values: Vec<u64> = (0..8).map(|i| up.call(i)).collect();
    let mut down_values: Vec<u64> = (0..8).rev().map(|i| down.call(i)).collect();
    down_values.reverse();

    assert_eq!(up_values, down_values);
    assert_eq!(up.len(), 8);
    assert_eq!(down.len(), 8);
}

#[test]
fn cached_values_equal_the_generator_stream() {
    let seed = [42; 32];
    let mut cache: RngState<u64> = RngState::new(SeededRng::from_seed(seed));
    let mut plain = StdRng::from_seed(seed);

    let last = cache.call(100);
    let stream: Vec<u64> = (0..101).map(|_| rand::Rng::random::<u64>(&mut plain)).collect();
    assert_eq!(last, stream[100]);
    for i in 0..101 {
        assert_eq!(cache.call(i), stream[i]);
    }
    assert_eq!(cache.len(), 101);
}

#[test]
fn end_to_end_seed_forty_two() {
    let seed = [42; 32];
    let mut a: RngState<i64> = RngState::new(SeededRng::from_seed(seed));
    let mut b: RngState<i64> = RngState::new(SeededRng::from_seed(seed));

    for i in [0usize, 5, 100] {
        assert_eq!(a.call(i), b.call(i));
    }
    assert_eq!(a.len(), 101);
    assert_eq!(b.len(), 101);
}

#[test]
fn repeated_requests_do_not_grow_history() {
    let mut rng: RngState<u8> = RngState::new(SeededRng::from_seed([5; 32]));
    let first = rng.call(6);
    for _ in 0..10 {
        assert_eq!(rng.call(6), first);
        assert_eq!(rng.len(), 7);
    }
}

#[test]
fn seeded_draws_follow_the_plain_stream_for_each_type() {
    let seed = [13; 32];

    let mut c32: RngState<i32> = RngState::new(SeededRng::from_seed(seed));
    let mut p32 = StdRng::from_seed(seed);
    for i in 0..20 {
        assert_eq!(c32.call(i), rand::Rng::random::<i32>(&mut p32));
    }

    let mut cb: RngState<bool> = RngState::new(SeededRng::from_seed(seed));
    let mut pb = StdRng::from_seed(seed);
    for i in 0..20 {
        assert_eq!(cb.call(i), rand::Rng::random::<bool>(&mut pb));
    }

    let mut c8: RngState<u8> = RngState::new(SeededRng::from_seed(seed));
    let mut p8 = StdRng::from_seed(seed);
    for i in 0..20 {
        assert_eq!(c8.call(i), rand::Rng::random::<u8>(&mut p8));
    }

    let mut c64: RngState<i64> = RngState::new(SeededRng::from_seed(seed));
    let mut p64 = StdRng::from_seed(seed);
    for i in 0..20 {
        assert_eq!(c64.call(i), rand::Rng::random::<i64>(&mut p64));
    }

    let mut cu32: RngState<u32> = RngState::new(SeededRng::from_seed(seed));
    let mut pu32 = StdRng::from_seed(seed);
    for i in 0..20 {
        assert_eq!(cu32.call(i), rand::Rng::random::<u32>(&mut pu32));
    }
}
