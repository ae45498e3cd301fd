//! Byte-based allocation sampling.
//!
//! With a sample rate of `R` bytes, allocations are sampled at exponentially
//! distributed byte distances with mean `R`: a countdown of bytes runs down by
//! each allocation's size and the allocation that takes it below zero is
//! sampled. Drawing a distance needs floating point and a random source, so
//! the caller draws it and hands it in.
use vstd::prelude::*;

verus! {

/// Default average number of allocated bytes between recorded pprof samples.
///
/// This matches Go's default heap profiling rate: one sampled allocation per
/// 512 KiB of allocated bytes on average. A rate of `1` records every
/// allocation, while `0` disables pprof stack recording.
pub const DEFAULT_PPROF_SAMPLE_RATE: usize = 524288;

/// The largest mean distance that the exponential draw supports.
pub const MAX_FAST_EXP_RAND_MEAN: usize = 0x7000000;

/// Random bits used by the exponential draw.
pub const RANDOM_BIT_COUNT: u32 = 26;

/// The byte countdown of one thread: bytes left before the next sample, and
/// the sample rate the countdown was drawn for.
#[derive(Clone, Copy, Debug, PartialEq, Eq, Structural)]
pub struct SampleClock {
    pub next_sample: i64,
    pub next_sample_rate: usize,
}

impl SampleClock {
    /// A countdown not yet drawn for any rate.
    pub fn new() -> (r: SampleClock)
        ensures
            r == (SampleClock { next_sample: i64::MIN, next_sample_rate: usize::MAX }),
    {
        SampleClock { next_sample: i64::MIN, next_sample_rate: usize::MAX }
    }
}

/// The distance to the next sample for `sample_rate`: never for a rate of
/// zero, at once for a rate of one, else the exponential draw `draw`.
pub open spec fn distance_spec(sample_rate: usize, draw: i32) -> i64 {
    if sample_rate == 0 {
        i64::MAX
    } else if sample_rate == 1 {
        0
    } else {
        draw as i64
    }
}

/// The distance in bytes to the next sample, where `draw` is an exponential
/// draw with mean `sample_rate` (see [`exp_draw_mean`]).
pub fn next_sample_distance(sample_rate: usize, draw: i32) -> (r: i64)
    ensures
        r == distance_spec(sample_rate, draw),
{
    if sample_rate == 0 {
        i64::MAX
    } else if sample_rate == 1 {
        0
    } else {
        draw as i64
    }
}

/// The mean of the exponential draw for `sample_rate`: the rate, capped at
/// [`MAX_FAST_EXP_RAND_MEAN`].
pub fn exp_draw_mean(sample_rate: usize) -> (r: usize)
    ensures
        r == (if sample_rate <= MAX_FAST_EXP_RAND_MEAN {
            sample_rate
        } else {
            MAX_FAST_EXP_RAND_MEAN
        }),
{
    if sample_rate <= MAX_FAST_EXP_RAND_MEAN {
        sample_rate
    } else {
        MAX_FAST_EXP_RAND_MEAN
    }
}

/// The uniform value in `1..=2^26` from which the exponential draw is made.
pub fn exp_draw_uniform(random: u64) -> (r: u32)
    ensures
        r == random % 0x400_0000 + 1,
        1 <= r <= 0x400_0000,
{
    (random % 0x400_0000) as u32 + 1
}

/// `size` as a byte count that fits in `i64`.
pub open spec fn size_i64(size: usize) -> int {
    if size <= i64::MAX {
        size as int
    } else {
        i64::MAX as int
    }
}

/// `a - b` within `i64`.
pub open spec fn sat_sub_i64(a: int, b: int) -> int {
    if a - b < i64::MIN {
        i64::MIN as int
    } else if a - b > i64::MAX {
        i64::MAX as int
    } else {
        a - b
    }
}

/// The countdown that an allocation of `size` bytes runs down, after a
/// change of sample rate has reset it to `reset`.
pub open spec fn countdown_before(c: SampleClock, sample_rate: usize, reset: i64) -> i64 {
    if c.next_sample_rate != sample_rate {
        reset
    } else {
        c.next_sample
    }
}

/// Whether an allocation of `size` bytes is sampled.
pub open spec fn sampled_spec(c: SampleClock, size: usize, sample_rate: usize, reset: i64) -> bool {
    if size == 0 || sample_rate == 0 {
        false
    } else if sample_rate == 1 {
        true
    } else {
        sat_sub_i64(countdown_before(c, sample_rate, reset) as int, size_i64(size)) < 0
    }
}

/// The countdown after an allocation of `size` bytes.
pub open spec fn clock_after(
    c: SampleClock,
    size: usize,
    sample_rate: usize,
    reset: i64,
    fresh: i64,
) -> SampleClock {
    if size == 0 || sample_rate == 0 || sample_rate == 1 {
        c
    } else {
        let next = sat_sub_i64(countdown_before(c, sample_rate, reset) as int, size_i64(size));
        SampleClock {
            next_sample: if next < 0 {
                fresh
            } else {
                next as i64
            },
            next_sample_rate: sample_rate,
        }
    }
}

/// Decides whether an allocation of `size` bytes is sampled at
/// `sample_rate`, and runs the countdown down by its size. `reset` is the
/// distance drawn when the rate differs from the one the countdown was drawn
/// for; `fresh` the one drawn after a sample. Both are
/// [`next_sample_distance`] results for `sample_rate`.
pub fn should_sample_allocation(
    clock: &mut SampleClock,
    size: usize,
    sample_rate: usize,
    reset: i64,
    fresh: i64,
) -> (r: bool)
    ensures
        r == sampled_spec(*old(clock), size, sample_rate, reset),
        *final(clock) == clock_after(*old(clock), size, sample_rate, reset, fresh),
{
    if size == 0 || sample_rate == 0 {
        return false;
    }
    if sample_rate == 1 {
        return true;
    }
    if clock.next_sample_rate != sample_rate {
        clock.next_sample = reset;
        clock.next_sample_rate = sample_rate;
    }
    let wide: u64 = size as u64;
    let step: i64 = if wide <= 0x7fff_ffff_ffff_ffffu64 {
        wide as i64
    } else {
        i64::MAX
    };
    let next = match clock.next_sample.checked_sub(step) {
        Some(n) => n,
        None => i64::MIN,
    };
    if next < 0 {
        clock.next_sample = fresh;
        true
    } else {
        clock.next_sample = next;
        false
    }
}

/// One xorshift64* step: the new state of the generator.
pub open spec fn xorshift_state(x: u64) -> u64 {
    let a = x ^ (x >> 12u64);
    let b = a ^ ((a << 25u64) as u64);
    b ^ (b >> 27u64)
}

/// The seed the generator starts from: the stack address and the clock
/// mixed with a fixed odd constant, never zero.
pub open spec fn seed_spec(stack_addr: u64, time: u64) -> u64 {
    let seed = stack_addr ^ time ^ 0x9e37_79b9_7f4a_7c15u64;
    if seed == 0 {
        0x9e37_79b9_7f4a_7c15u64
    } else {
        seed
    }
}

/// The generator seed from a stack address and the wall clock in
/// nanoseconds.
pub fn random_seed(stack_addr: u64, time: u64) -> (r: u64)
    ensures
        r == seed_spec(stack_addr, time),
        r != 0,
{
    let seed = stack_addr ^ time ^ 0x9e37_79b9_7f4a_7c15u64;
    if seed == 0 {
        0x9e37_79b9_7f4a_7c15u64
    } else {
        seed
    }
}

/// Draws a pseudo-random number: a generator in state zero starts from
/// `seed`; the state advances by one xorshift64* step and the output is the
/// new state times the xorshift64* multiplier, wrapping.
pub fn cheap_random(state: &mut u64, seed: u64) -> (r: u64)
    ensures
        *final(state) == xorshift_state(if *old(state) == 0 {
            seed
        } else {
            *old(state)
        }),
        r == (*final(state) as int * 0x2545_f491_4f6c_dd1d) % 0x1_0000_0000_0000_0000,
{
    let mut x = *state;
    if x == 0 {
        x = seed;
    }
    x = x ^ (x >> 12u64);
    x = x ^ (x << 25u64);
    x = x ^ (x >> 27u64);
    *state = x;
    x.wrapping_mul(0x2545_f491_4f6c_dd1d)
}

} // verus!
