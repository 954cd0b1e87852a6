use rana::benchmark::{expected_attempts, Benchmark};

#[test]
fn expected_attempts_is_two_to_the_bits() {
    assert_eq!(expected_attempts(0), Some(1));
    assert_eq!(expected_attempts(1), Some(2));
    assert_eq!(expected_attempts(10), Some(1024));
    assert_eq!(expected_attempts(16), Some(65536));
    assert_eq!(expected_attempts(64), Some(18446744073709551616));
    assert_eq!(expected_attempts(127), Some(170141183460469231731687303715884105728));
}

#[test]
fn expected_attempts_of_every_size_that_fits() {
    for bits in 0..=127u32 {
        assert_eq!(expected_attempts(bits), Some(1u128 << bits));
    }
}

#[test]
fn expected_attempts_gives_up_beyond_127_bits() {
    assert_eq!(expected_attempts(128), None);
    assert_eq!(expected_attempts(256), None);
    assert_eq!(expected_attempts(u32::MAX), None);
}

#[test]
fn sampling_goes_on_through_the_fifth_second() {
    let mut pass = Benchmark::new();
    assert_eq!(pass, Benchmark { samples: 0, elapsed_secs: 0 });
    for secs in 0..=5u64 {
        assert!(pass.record_sample(secs));
        assert_eq!(pass.elapsed_secs, secs);
    }
    assert!(!pass.record_sample(6));
    assert_eq!(pass, Benchmark { samples: 7, elapsed_secs: 6 });
    assert!(!pass.record_sample(u64::MAX));
    assert_eq!(pass, Benchmark { samples: 8, elapsed_secs: u64::MAX });
}

#[test]
fn rate_is_the_count_over_the_seconds_sampled() {
    assert_eq!(Benchmark { samples: 600, elapsed_secs: 6 }.hashes_per_second(), 100);
    assert_eq!(Benchmark { samples: 599, elapsed_secs: 6 }.hashes_per_second(), 99);
    assert_eq!(Benchmark { samples: 5, elapsed_secs: 6 }.hashes_per_second(), 0);
    assert_eq!(Benchmark { samples: 0, elapsed_secs: 6 }.hashes_per_second(), 0);
    assert_eq!(Benchmark { samples: 123456, elapsed_secs: 1 }.hashes_per_second(), 123456);
    assert_eq!(Benchmark { samples: u64::MAX, elapsed_secs: u64::MAX }.hashes_per_second(), 1);
}

#[test]
fn pass_of_less_than_a_second_counts_as_one_second() {
    assert_eq!(Benchmark { samples: 42, elapsed_secs: 0 }.hashes_per_second(), 42);
    assert_eq!(Benchmark::new().hashes_per_second(), 0);
}

#[test]
fn rate_follows_the_last_sample_recorded() {
    let mut pass = Benchmark::new();
    for _ in 0..599 {
        assert!(pass.record_sample(3));
    }
    assert!(!pass.record_sample(6));
    assert_eq!(pass.hashes_per_second(), 100);
}

#[test]
fn sample_count_stops_at_its_largest_value() {
    let mut pass = Benchmark { samples: u64::MAX - 1, elapsed_secs: 0 };
    assert!(pass.record_sample(0));
    assert_eq!(pass.samples, u64::MAX);
    assert!(pass.record_sample(0));
    assert_eq!(pass.samples, u64::MAX);
}
