//! The random source: a linear congruential generator whose state the caller
//! holds, so that one seed gives one image.

use vstd::prelude::*;
use crate::scalar::Scalar;
use crate::scalar::SCALE;
use crate::scalar_laws::lemma_mul_by_fraction;
use crate::vec3::Vec3;

verus! {

/// Multiplier of the generator.
pub const MULTIPLIER: u64 = 6364136223846793005;

/// Increment of the generator.
pub const INCREMENT: u64 = 1442695040888963407;

/// Draws after which a rejection sampler gives up and returns its fallback.
pub const MAX_ATTEMPTS: u32 = 64;

/// The state that follows `state`: `state * MULTIPLIER + INCREMENT`, modulo `2^64`.
pub open spec fn spec_advance(state: u64) -> u64 {
    ((state * MULTIPLIER + INCREMENT) % 0x1_0000_0000_0000_0000) as u64
}

/// A generator of uniform scalars.
#[derive(Clone, Debug, PartialEq, Eq)]
pub struct Rng {
    pub state: u64,
}

impl Rng {
    /// The generator after one draw.
    pub open spec fn spec_next(self) -> Rng {
        Rng { state: spec_advance(self.state) }
    }

    /// The generator after `n` draws.
    pub open spec fn spec_skip(self, n: nat) -> Rng
        decreases n,
    {
        if n == 0 {
            self
        } else {
            self.spec_next().spec_skip((n - 1) as nat)
        }
    }

    /// The scalar that the next draw gives: the upper half of the state that
    /// follows, taken as a fraction of one.
    pub open spec fn spec_float(self) -> Scalar {
        Scalar { raw: (spec_advance(self.state) / 0x1_0000_0000) as i64 }
    }

    /// The next draw, mapped from `[0, 1)` to `[min, max)`.
    pub open spec fn spec_float_interval(self, min: Scalar, max: Scalar) -> Scalar {
        min.spec_add(max.spec_sub(min).spec_mul(self.spec_float()))
    }

    /// The vector that the next three draws give, each component in `[min, max)`.
    pub open spec fn spec_range_vec3(self, min: Scalar, max: Scalar) -> Vec3<Scalar> {
        Vec3 {
            x: self.spec_float_interval(min, max),
            y: self.spec_next().spec_float_interval(min, max),
            z: self.spec_next().spec_next().spec_float_interval(min, max),
        }
    }

    pub fn new(seed: u64) -> (r: Rng)
        ensures
            r.state == seed,
    {
        Rng { state: seed }
    }

    /// A scalar in `[0, 1)`.
    pub fn random_float(&mut self) -> (r: Scalar)
        ensures
            r == old(self).spec_float(),
            *final(self) == old(self).spec_next(),
            0 <= r.raw < SCALE,
    {
        let wide: u128 = (self.state as u128) * 6364136223846793005u128
            + 1442695040888963407u128;
        let next: u64 = (wide % 0x1_0000_0000_0000_0000u128) as u64;
        self.state = next;
        Scalar::from_raw((next / 0x1_0000_0000u64) as i64)
    }

    /// A scalar in `[min, max)`.
    pub fn random_float_interval(&mut self, min: Scalar, max: Scalar) -> (r: Scalar)
        ensures
            r == old(self).spec_float_interval(min, max),
            *final(self) == old(self).spec_next(),
            min.raw < max.raw ==> min.raw <= r.raw < max.raw,
    {
        let unit: Scalar = self.random_float();
        proof {
            if min.raw < max.raw {
                lemma_mul_by_fraction(max.spec_sub(min), unit);
            }
        }
        min + (max - min) * unit
    }
}

} // verus!
