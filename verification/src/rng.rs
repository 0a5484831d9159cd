//! A small deterministic pseudo-random generator. The solver's runs are
//! reproducible: the whole generation sequence is a function of the seed.
use vstd::prelude::*;

verus! {

/// One step of the linear congruential generator, on the full 64-bit ring.
#[verifier::opaque]
pub open spec fn spec_rng_next(s: u64) -> u64 {
    (((s as int) * 6364136223846793005 + 1442695040888963407) % 0x1_0000_0000_0000_0000) as u64
}

/// Generator state. Every draw is pinned by its contract, so two runs from
/// the same seed produce the same values.
#[derive(Clone, Copy, Debug, PartialEq, Eq, Structural)]
pub struct SolverRng {
    pub state: u64,
}

impl SolverRng {
    pub fn new(seed: u64) -> (r: SolverRng)
        ensures
            r.state == seed,
    {
        SolverRng { state: seed }
    }

    /// Advance the generator and return the new state.
    pub fn next_u64(&mut self) -> (r: u64)
        ensures
            r == spec_rng_next(old(self).state),
            final(self).state == r,
    {
        let ghost s0: int = self.state as int;
        proof {
            reveal(spec_rng_next);
            assert(s0 * 6364136223846793005 + 1442695040888963407
                < 0x100_0000_0000_0000_0000_0000_0000_0000_0000) by (nonlinear_arith)
                requires
                    0 <= s0 <= 0xffff_ffff_ffff_ffff,
            ;
        }
        let next: u128 = (self.state as u128 * 6364136223846793005) + 1442695040888963407;
        let r: u64 = (next % 0x1_0000_0000_0000_0000) as u64;
        self.state = r;
        r
    }

    /// A value below `n`, uniform up to the usual modulo skew.
    pub fn below(&mut self, n: u64) -> (r: u64)
        requires
            n >= 1,
        ensures
            r < n,
            r == spec_rng_next(old(self).state) % n,
            final(self).state == spec_rng_next(old(self).state),
    {
        let v = self.next_u64();
        v % n
    }
}

} // verus!
