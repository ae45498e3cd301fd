use pprof_alloc::sampler::{
    cheap_random, exp_draw_mean, exp_draw_uniform, next_sample_distance, random_seed,
    should_sample_allocation, SampleClock, MAX_FAST_EXP_RAND_MEAN,
};

#[test]
fn sample_distances_by_rate() {
    assert_eq!(next_sample_distance(0, 5), i64::MAX);
    assert_eq!(next_sample_distance(1, 5), 0);
    assert_eq!(next_sample_distance(512, 5), 5);
    assert_eq!(exp_draw_mean(512), 512);
    assert_eq!(exp_draw_mean(usize::MAX), MAX_FAST_EXP_RAND_MEAN);
    assert_eq!(exp_draw_uniform(0), 1);
    assert_eq!(exp_draw_uniform((1 << 26) - 1), 1 << 26);
    assert_eq!(exp_draw_uniform(1 << 26), 1);
}

#[test]
fn countdown_samples_the_allocation_that_crosses_zero() {
    let mut clock = SampleClock::new();
    assert!(!should_sample_allocation(&mut clock, 100, 512, 250, 900));
    assert_eq!(clock.next_sample, 150);
    assert_eq!(clock.next_sample_rate, 512);
    assert!(!should_sample_allocation(&mut clock, 150, 512, 0, 900));
    assert_eq!(clock.next_sample, 0);
    assert!(should_sample_allocation(&mut clock, 1, 512, 0, 900));
    assert_eq!(clock.next_sample, 900);
    assert!(!should_sample_allocation(&mut clock, 0, 512, 0, 0));
    assert!(!should_sample_allocation(&mut clock, 10, 0, 0, 0));
    assert!(should_sample_allocation(&mut clock, 10, 1, 7, 7));
    assert_eq!(clock.next_sample, 900);
}

#[test]
fn xorshift_generator_steps() {
    let mut state = 0u64;
    let seed = random_seed(0x1000, 0x2000);
    assert_ne!(seed, 0);
    let out = cheap_random(&mut state, seed);
    let mut x = seed;
    x ^= x >> 12;
    x ^= x << 25;
    x ^= x >> 27;
    assert_eq!(state, x);
    assert_eq!(out, x.wrapping_mul(0x2545_f491_4f6c_dd1d));
    assert_eq!(random_seed(0x9e37_79b9_7f4a_7c15, 0), 0x9e37_79b9_7f4a_7c15);
}
