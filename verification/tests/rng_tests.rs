use rand::{Rng, RngCore, SeedableRng};
use rand_pcg::Pcg64;
use sketches::rng::SketchRng;

#[test]
fn matches_reference_generator_stream() {
    for seed in [0u64, 1, 42, 0xdead_beef, u64::MAX] {
        let mut reference = Pcg64::seed_from_u64(seed);
        let mut own = SketchRng::new(seed);
        for _ in 0..64 {
            assert_eq!(own.next_u64(), reference.next_u64());
        }
    }
}

#[test]
fn matches_reference_boolean_stream() {
    let mut reference = Pcg64::seed_from_u64(7);
    let mut own = SketchRng::new(7);
    for _ in 0..64 {
        let expected: bool = reference.gen();
        assert_eq!(own.gen_bool(), expected);
    }
}

#[test]
fn same_seed_same_stream() {
    let mut a = SketchRng::new(99);
    let mut b = SketchRng::new(99);
    for _ in 0..32 {
        assert_eq!(a.next_u64(), b.next_u64());
    }
}

#[test]
fn range_draws_stay_in_range() {
    let mut rng = SketchRng::new(3);
    for _ in 0..200 {
        let v = rng.gen_range_u64(20, 40);
        assert!((20..40).contains(&v));
        let w = rng.gen_range_usize(0, 7);
        assert!(w < 7);
    }
}

#[test]
fn unit_draws_have_53_bits() {
    let mut rng = SketchRng::new(11);
    for _ in 0..200 {
        assert!(rng.gen_unit53() < (1u64 << 53));
    }
}

#[test]
fn pick_returns_one_of_the_two() {
    let mut rng = SketchRng::new(5);
    let mut saw_first = false;
    let mut saw_second = false;
    for _ in 0..64 {
        match rng.pick_i64(-9, 9) {
            -9 => saw_first = true,
            9 => saw_second = true,
            other => panic!("pick returned {other}"),
        }
    }
    assert!(saw_first && saw_second);
}
