//! A small, fast, seedable pseudo-random source (RomuDuoJr).
use vstd::prelude::*;

verus! {

/// Multiplier of the RomuDuoJr generator.
pub const ROMU_MUL: u64 = 15241094284759029579;

/// Rotation of a 64-bit word by 27 bits to the left.
pub open spec fn rotl27(v: u64) -> u64 {
    (v << 27u64) | (v >> 37u64)
}

/// The value that `below(n)` draws from the state `r`.
pub open spec fn pick(r: StdRand, n: u64) -> u64 {
    if n <= 1 {
        0
    } else {
        r.x_state % n
    }
}

/// The state after `below(n)` drew from `r`.
pub open spec fn after_pick(r: StdRand, n: u64) -> StdRand {
    if n <= 1 {
        r
    } else {
        r.step()
    }
}

/// The pseudo-random state; equal states produce equal sequences.
#[derive(Debug, Clone, Copy, PartialEq, Eq, Structural)]
pub struct StdRand {
    pub x_state: u64,
    pub y_state: u64,
}

impl StdRand {
    /// The state after one draw.
    pub open spec fn step(self) -> StdRand {
        StdRand {
            x_state: ROMU_MUL.wrapping_mul(self.y_state),
            y_state: rotl27(self.y_state.wrapping_sub(self.x_state)),
        }
    }

    /// The state that a seed produces.
    pub open spec fn seeded(seed: u64) -> StdRand {
        StdRand { x_state: seed ^ 0x12345u64, y_state: seed ^ 0x6789Au64 }
    }

    /// Creates a generator from a 64-bit seed.
    pub fn with_seed(seed: u64) -> (r: StdRand)
        ensures
            r == StdRand::seeded(seed),
    {
        StdRand { x_state: seed ^ 0x12345u64, y_state: seed ^ 0x6789Au64 }
    }

    /// Reseeds the generator.
    pub fn set_seed(&mut self, seed: u64)
        ensures
            *final(self) == StdRand::seeded(seed),
    {
        self.x_state = seed ^ 0x12345u64;
        self.y_state = seed ^ 0x6789Au64;
    }

    /// Draws the next 64-bit value.
    pub fn next(&mut self) -> (r: u64)
        ensures
            r == old(self).x_state,
            *final(self) == old(self).step(),
    {
        let xp = self.x_state;
        self.x_state = ROMU_MUL.wrapping_mul(self.y_state);
        let d = self.y_state.wrapping_sub(xp);
        self.y_state = (d << 27u64) | (d >> 37u64);
        xp
    }

    /// Draws a value in `[0, upper_bound_excl)`; a bound of 0 or 1 gives 0.
    pub fn below(&mut self, upper_bound_excl: u64) -> (r: u64)
        ensures
            upper_bound_excl <= 1 ==> r == 0 && *final(self) == *old(self),
            upper_bound_excl > 1 ==> r == old(self).x_state % upper_bound_excl && *final(self)
                == old(self).step(),
            upper_bound_excl > 0 ==> r < upper_bound_excl,
            r == pick(*old(self), upper_bound_excl),
            *final(self) == after_pick(*old(self), upper_bound_excl),
    {
        if upper_bound_excl <= 1 {
            0
        } else {
            self.next() % upper_bound_excl
        }
    }

    /// Draws a value in `[lower_bound_incl, upper_bound_incl]`.
    pub fn between(&mut self, lower_bound_incl: u64, upper_bound_incl: u64) -> (r: u64)
        requires
            lower_bound_incl <= upper_bound_incl,
        ensures
            lower_bound_incl <= r <= upper_bound_incl,
            upper_bound_incl - lower_bound_incl < u64::MAX ==> r == lower_bound_incl
                + old(self).x_state % (upper_bound_incl - lower_bound_incl + 1) as u64,
    {
        if upper_bound_incl - lower_bound_incl == u64::MAX {
            self.next()
        } else {
            lower_bound_incl + self.below(upper_bound_incl - lower_bound_incl + 1)
        }
    }
}

} // verus!
