use vstd::prelude::*;

verus! {

/// Multiplier of the output mixing step.
pub const OUTPUT_MULTIPLIER: u64 = 0x2545_F491_4F6C_DD1D;

/// Constant folded into the seed so that the all-zero seed still yields a
/// lively stream.
pub const SEED_MIX: u64 = 0x9E37_79B9_7F4A_7C15;

/// The state a seed is expanded to.
pub open spec fn seeded_state(seed: u64) -> u64 {
    seed ^ SEED_MIX
}

/// One xorshift step of the generator state.
pub open spec fn next_state(s: u64) -> u64 {
    let a = s ^ (s >> 12);
    let b = a ^ (a << 25);
    b ^ (b >> 27)
}

/// The output word derived from a generator state.
pub open spec fn output_of(s: u64) -> u64 {
    vstd::wrapping::u64_specs::wrapping_mul(s, OUTPUT_MULTIPLIER)
}

/// Seeded pseudo-random source owned by the run state.
///
/// It is deterministic: the same seed yields the same stream, which is what
/// makes a recorded campaign replayable.
#[derive(Clone, Copy, Debug, PartialEq, Eq, Structural)]
pub struct RandSource {
    /// Current generator state.
    pub state: u64,
}

impl RandSource {
    /// Create a source from a seed.
    pub fn with_seed(seed: u64) -> (r: RandSource)
        ensures
            r.state == seeded_state(seed),
    {
        RandSource { state: seed ^ SEED_MIX }
    }

    /// Re-seed the source in place.
    pub fn set_seed(&mut self, seed: u64)
        ensures
            final(self).state == seeded_state(seed),
    {
        self.state = seed ^ SEED_MIX;
    }

    /// Draw the next word of entropy, advancing the generator state.
    pub fn next_u64(&mut self) -> (r: u64)
        ensures
            final(self).state == next_state(old(self).state),
            r == output_of(final(self).state),
    {
        let s = self.state;
        let a = s ^ (s >> 12);
        let b = a ^ (a << 25);
        let c = b ^ (b >> 27);
        self.state = c;
        c.wrapping_mul(OUTPUT_MULTIPLIER)
    }
}

} // verus!
