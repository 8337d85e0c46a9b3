//! A small deterministic random number generator.
//!
//! A Lehmer multiplicative congruential generator over the Mersenne prime
//! `2^31 - 1`. The host seeds it once; every draw is a pure function of the
//! state, so simulation runs replay exactly.

use vstd::prelude::*;

verus! {

/// Multiplier of the Lehmer generator.
pub const RNG_MUL: u64 = 48_271;

/// Modulus of the Lehmer generator.
pub const RNG_MOD: u64 = 0x7fff_ffff;

/// The state after one draw.
pub open spec fn rng_next_spec(s: u64) -> u64 {
    (((s as int) * (RNG_MUL as int)) % (RNG_MOD as int)) as u64
}

/// The sample a state yields in `[lo, hi)`; `lo` itself when the interval is
/// empty.
pub open spec fn rng_sample_spec(s: u64, lo: i64, hi: i64) -> i64 {
    if lo < hi {
        (lo as int + (s as int) % (hi as int - lo as int)) as i64
    } else {
        lo
    }
}

/// Deterministic pseudo-random stream.
#[derive(Clone, Copy, Debug, PartialEq, Eq, Structural)]
pub struct Rng {
    /// Current state, always below the modulus.
    pub state: u64,
}

/// The generator state is within the Lehmer modulus.
pub open spec fn rng_wf(r: Rng) -> bool {
    r.state < RNG_MOD
}

impl Rng {
    /// Seed the stream; any seed is brought into range.
    pub fn new(seed: u64) -> (r: Rng)
        ensures
            rng_wf(r),
            r.state == (seed as int % (RNG_MOD as int)) as u64,
    {
        Rng { state: seed % RNG_MOD }
    }

    /// Advance the stream one step.
    pub fn step(&mut self)
        requires
            rng_wf(*old(self)),
        ensures
            final(self).state == rng_next_spec(old(self).state),
            rng_wf(*final(self)),
    {
        let s = self.state;
        proof {
            assert((s as int) * (RNG_MUL as int) < 0xffff_ffff_ffff_ffff) by (nonlinear_arith)
                requires
                    s < 0x8000_0000;
        }
        self.state = (s * RNG_MUL) % RNG_MOD;
    }

    /// Draw a value in `[lo, hi)`; when the interval is empty, `lo` comes
    /// back and the stream still advances.
    pub fn range(&mut self, lo: i64, hi: i64) -> (r: i64)
        requires
            rng_wf(*old(self)),
            -1_000_000_000_000 <= lo <= 1_000_000_000_000,
            -1_000_000_000_000 <= hi <= 1_000_000_000_000,
    ensures
            final(self).state == rng_next_spec(old(self).state),
            rng_wf(*final(self)),
            r == rng_sample_spec(final(self).state, lo, hi),
            lo < hi ==> lo <= r < hi,
            lo >= hi ==> r == lo,
    {
        self.step();
        if lo < hi {
            let span: u64 = (hi - lo) as u64;
            let off: u64 = self.state % span;
            lo + off as i64
        } else {
            lo
        }
    }
}

} // verus!
