//! Estimating how long a search will take: the decisions of the timed
//! sampling pass and the size of the search space.

use vstd::arithmetic::power2::{lemma2_to64, lemma2_to64_rest, lemma_pow2_adds, lemma_pow2_unfold, pow2};
use vstd::prelude::*;

verus! {

/// Whole seconds that the sampling pass runs beyond.
pub const SAMPLING_SECS: u64 = 5;

/// The largest search space, in bits, whose size fits the result type.
pub const MAX_ESTIMATE_BITS: u32 = 127;

/// The count of a sampling pass and the time that it has taken.
#[derive(Clone, Copy, Debug, PartialEq, Eq, Structural)]
pub struct Benchmark {
    /// Keys generated and examined so far.
    pub samples: u64,
    /// Whole seconds from the start of the pass to the last key counted.
    pub elapsed_secs: u64,
}

/// Keys per second of a pass of `samples` keys in `elapsed_secs` whole
/// seconds, rounded down. A pass of less than a second counts as one second.
pub open spec fn rate_of(samples: u64, elapsed_secs: u64) -> int {
    if elapsed_secs == 0 {
        samples as int
    } else {
        samples as int / elapsed_secs as int
    }
}

impl Benchmark {
    /// A sampling pass that has not generated anything yet.
    pub fn new() -> (pass: Benchmark)
        ensures
            pass == (Benchmark { samples: 0, elapsed_secs: 0 }),
    {
        Benchmark { samples: 0, elapsed_secs: 0 }
    }

    /// Counts one generated key, notes the whole seconds elapsed since the
    /// start of the pass, and says whether the pass goes on: it does until
    /// more than five whole seconds have elapsed.
    pub fn record_sample(&mut self, elapsed_secs: u64) -> (goes_on: bool)
        ensures
            final(self).samples == if old(self).samples == u64::MAX {
                u64::MAX
            } else {
                (old(self).samples + 1) as u64
            },
            final(self).elapsed_secs == elapsed_secs,
            goes_on == (elapsed_secs <= SAMPLING_SECS),
    {
        if self.samples < u64::MAX {
            self.samples = self.samples + 1;
        }
        self.elapsed_secs = elapsed_secs;
        elapsed_secs <= SAMPLING_SECS
    }

    /// The rate of one worker in keys per second: the count over the whole
    /// seconds that the pass has taken.
    pub fn hashes_per_second(&self) -> (rate: u64)
        ensures
            rate == rate_of(self.samples, self.elapsed_secs),
    {
        if self.elapsed_secs == 0 {
            self.samples
        } else {
            self.samples / self.elapsed_secs
        }
    }
}

/// Two to the power of 127 written out.
proof fn lemma_pow2_127()
    ensures
        pow2(127) == 0x8000_0000_0000_0000_0000_0000_0000_0000,
{
    lemma2_to64();
    lemma2_to64_rest();
    lemma_pow2_adds(64, 63);
    assert(0x10000000000000000 * 0x8000000000000000 == 0x8000_0000_0000_0000_0000_0000_0000_0000)
        by (nonlinear_arith);
}

/// Powers of two grow with the exponent.
proof fn lemma_pow2_monotone(a: nat, b: nat)
    requires
        a <= b,
    ensures
        pow2(a) <= pow2(b),
    decreases b - a,
{
    if a < b {
        lemma_pow2_monotone(a, (b - 1) as nat);
        lemma_pow2_unfold(b);
    }
}

/// The number of attempts that a search space of `bits` bits is expected to
/// take, two to the power of `bits`, where that fits the result type.
pub fn expected_attempts(bits: u32) -> (attempts: Option<u128>)
    ensures
        bits <= MAX_ESTIMATE_BITS ==> attempts == Some(pow2(bits as nat) as u128) && pow2(
            bits as nat,
        ) <= u128::MAX,
        bits > MAX_ESTIMATE_BITS ==> attempts is None,
{
    if bits > MAX_ESTIMATE_BITS {
        return None;
    }
    let mut attempts: u128 = 1;
    let mut i: u32 = 0;
    proof {
        lemma2_to64();
        lemma_pow2_127();
        lemma_pow2_monotone(bits as nat, 127);
    }
    while i < bits
        invariant
            i <= bits <= MAX_ESTIMATE_BITS,
            attempts == pow2(i as nat),
            pow2(127) == 0x8000_0000_0000_0000_0000_0000_0000_0000,
        decreases bits - i,
    {
        proof {
            lemma_pow2_unfold((i + 1) as nat);
            lemma_pow2_monotone((i + 1) as nat, 127);
        }
        attempts = attempts * 2;
        i = i + 1;
    }
    Some(attempts)
}

} // verus!
