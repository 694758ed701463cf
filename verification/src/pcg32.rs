//! PCG32 random number generation and the Bernoulli gate behind the
//! sampling attribute.
use vstd::prelude::*;

verus! {

/// The PCG32 state multiplier.
pub const PCG_MULT: u64 = 6364136223846793005;

/// The PCG32 state increment.
pub const PCG_INC: u64 = 1442695040888963407;

/// The generator state after one step.
pub open spec fn pcg32_step(state: u64) -> u64 {
    vstd::wrapping::u64_specs::wrapping_add(
        vstd::wrapping::u64_specs::wrapping_mul(state, PCG_MULT),
        PCG_INC,
    )
}

/// The 32-bit output drawn from a state (xorshift high bits, rotated
/// right by the top five bits).
pub open spec fn pcg32_out(state: u64) -> u32 {
    let xorshifted = (((state >> 18) ^ state) >> 27) & 0xffff_ffff;
    let rot = state >> 59;
    (((xorshifted >> rot) | (xorshifted << (((32 - rot) % 32) as u64))) & 0xffff_ffff) as u32
}

/// A deterministic PCG32 generator. Sampling decisions drawn from it are
/// reproducible from the seed.
pub struct Pcg32 {
    state: u64,
}

impl Pcg32 {
    /// The generator's current state.
    pub closed spec fn spec_state(&self) -> u64 {
        self.state
    }

    /// A generator starting from the given seed.
    pub fn seeded(seed: u64) -> (r: Pcg32)
        ensures
            r.spec_state() == seed,
    {
        Pcg32 { state: seed }
    }

    /// Draw the next 32-bit value, stepping the state.
    pub fn next_u32(&mut self) -> (r: u32)
        ensures
            final(self).spec_state() == pcg32_step(old(self).spec_state()),
            r == pcg32_out(old(self).spec_state()),
    {
        let s = self.state;
        self.state = s.wrapping_mul(PCG_MULT).wrapping_add(PCG_INC);
        let xorshifted: u64 = (((s >> 18) ^ s) >> 27) & 0xffff_ffff;
        let rot: u64 = s >> 59;
        proof {
            assert(rot < 32) by (bit_vector)
                requires
                    rot == s >> 59,
            ;
        }
        let rotc: u64 = (32 - rot) % 32;
        let out: u64 = ((xorshifted >> rot) | (xorshifted << rotc)) & 0xffff_ffff;
        proof {
            assert(out < 0x1_0000_0000) by (bit_vector)
                requires
                    out == ((xorshifted >> rot) | (xorshifted << rotc)) & 0xffff_ffff,
            ;
        }
        out as u32
    }
}

/// A sampling rate: the chance a write is forwarded, expressed as a
/// threshold out of 2^32 draws.
#[derive(Debug, Clone, Copy, PartialEq, Eq, Structural)]
pub struct Sampling {
    /// Draws strictly below this pass; `2^32` passes everything.
    pub threshold: u64,
}

/// The rate one-in-a-million parts correspond to, as a draw threshold.
pub open spec fn threshold_of_ppm(ppm: u64) -> int {
    ppm * 0x1_0000_0000 / 1_000_000
}

impl Sampling {
    /// The full sampling rate: every write passes.
    pub fn full() -> (r: Sampling)
        ensures
            r.threshold == 0x1_0000_0000u64,
    {
        Sampling { threshold: 0x1_0000_0000 }
    }

    /// The rate passing `ppm` writes out of every million, on average.
    pub fn of_ppm(ppm: u64) -> (r: Sampling)
        requires
            ppm <= 1_000_000,
        ensures
            r.threshold == threshold_of_ppm(ppm),
    {
        Sampling { threshold: ((ppm as u128) * 0x1_0000_0000 / 1_000_000) as u64 }
    }

    /// Whether a draw passes this rate.
    pub open spec fn spec_accept(&self, draw: u32) -> bool {
        (draw as u64) < self.threshold
    }

    /// Draw once and decide whether the write is forwarded. At the full
    /// rate every write passes.
    pub fn accept(&self, rng: &mut Pcg32) -> (r: bool)
        ensures
            final(rng).spec_state() == pcg32_step(old(rng).spec_state()),
            r == self.spec_accept(pcg32_out(old(rng).spec_state())),
            self.threshold == 0x1_0000_0000u64 ==> r,
    {
        let draw = rng.next_u32();
        (draw as u64) < self.threshold
    }
}

} // verus!
