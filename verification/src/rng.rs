use vstd::prelude::*;

verus! {

/// One whole unit of probability. Probabilities and mutation chances are
/// fixed-point values measured in parts of `PROB_ONE`, so `PROB_ONE / 2`
/// stands for one half and `0` for an impossible event.
pub const PROB_ONE: u64 = 1_000_000_000;

/// One half, in parts of `PROB_ONE`: the fair coin used by mutation.
pub const PROB_HALF: u64 = PROB_ONE / 2;

#[verifier::external_type_specification]
#[verifier::external_body]
pub struct ExStdRng(rand::rngs::StdRng);

/// The caller-owned random source that every stochastic operation of the
/// library consumes. Seeding it deterministically makes whole simulation
/// runs reproducible.
pub struct RandomSource {
    inner: rand::rngs::StdRng,
}

impl RandomSource {
    /// Relies on `rand::rngs::StdRng` through `SeedableRng::seed_from_u64`:
    /// a deterministic generator expanded from one 64-bit seed.
    #[verifier::external_body]
    pub fn from_seed_u64(seed: u64) -> RandomSource {
        RandomSource { inner: <rand::rngs::StdRng as rand::SeedableRng>::seed_from_u64(seed) }
    }

    /// Relies on `rand::Rng::gen_range` over `0..bound`: a value drawn
    /// uniformly from `[0, bound)`; the call panics only on an empty range,
    /// which the precondition rules out.
    #[verifier::external_body]
    pub fn next_below(&mut self, bound: u64) -> (r: u64)
        requires
            bound > 0,
        ensures
            r < bound,
    {
        rand::Rng::gen_range(&mut self.inner, 0..bound)
    }

    /// Draws one uniform probability value in `[0, PROB_ONE)`.
    pub fn draw_unit(&mut self) -> (r: u64)
        ensures
            r < PROB_ONE,
    {
        self.next_below(PROB_ONE)
    }

    /// Draws a boolean that holds with the given probability: never with
    /// chance `0`, always with chance `PROB_ONE` or more.
    pub fn draw_bool(&mut self, chance: u64) -> (r: bool)
        ensures
            chance == 0 ==> !r,
            chance >= PROB_ONE ==> r,
    {
        let p = self.draw_unit();
        p < chance
    }

    /// Draws an index uniformly below `bound`.
    pub fn draw_index(&mut self, bound: usize) -> (r: usize)
        requires
            bound > 0,
        ensures
            r < bound,
    {
        let r = self.next_below(bound as u64);
        r as usize
    }
}

} // verus!
