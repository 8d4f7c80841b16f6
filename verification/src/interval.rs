//! Ranges of scalars: the distances at which a hit counts, and the bounds of
//! a colour channel.

use vstd::prelude::*;
use crate::scalar::MAX_RAW;
use crate::scalar::MIN_RAW;
use crate::scalar::Scalar;

verus! {

/// The range from `min` to `max`.
#[derive(Clone, Copy, Debug, PartialEq, Eq, Structural)]
pub struct Interval {
    pub min: Scalar,
    pub max: Scalar,
}

/// The two ranges that need no bounds spelled out.
#[derive(Clone, Copy, Debug, PartialEq, Eq, Structural)]
pub enum IntervalWorldChoice {
    Empty,
    Universe,
}

impl Interval {
    pub open spec fn spec_size(self) -> Scalar {
        self.max.spec_sub(self.min)
    }

    /// `x` lies in the range, bounds included.
    pub open spec fn spec_contains(self, x: Scalar) -> bool {
        self.min.raw <= x.raw && x.raw <= self.max.raw
    }

    /// `x` lies strictly inside the range.
    pub open spec fn spec_surrounds(self, x: Scalar) -> bool {
        self.min.raw < x.raw && x.raw < self.max.raw
    }

    /// `x`, moved to the nearer bound where it lies outside the range.
    pub open spec fn spec_clamp(self, x: Scalar) -> Scalar {
        if x.raw < self.min.raw {
            self.min
        } else if x.raw > self.max.raw {
            self.max
        } else {
            x
        }
    }

    pub open spec fn spec_world_choice(choice: IntervalWorldChoice) -> Interval {
        match choice {
            IntervalWorldChoice::Empty => Interval {
                min: Scalar { raw: MAX_RAW },
                max: Scalar { raw: MIN_RAW },
            },
            IntervalWorldChoice::Universe => Interval {
                min: Scalar { raw: MIN_RAW },
                max: Scalar { raw: MAX_RAW },
            },
        }
    }

    pub fn new(min: Scalar, max: Scalar) -> (r: Self)
        ensures
            r.min == min,
            r.max == max,
    {
        Self { min, max }
    }

    /// The range that starts and ends at infinity.
    pub fn default() -> (r: Self)
        ensures
            r.min.raw == MAX_RAW,
            r.max.raw == MAX_RAW,
    {
        Self { min: Scalar::infinity(), max: Scalar::infinity() }
    }

    pub fn max(&self) -> (r: Scalar)
        ensures
            r == self.max,
    {
        self.max
    }

    pub fn min(&self) -> (r: Scalar)
        ensures
            r == self.min,
    {
        self.min
    }

    pub fn size(&self) -> (r: Scalar)
        ensures
            r == self.spec_size(),
    {
        self.max - self.min
    }

    pub fn contains(&self, x: Scalar) -> (r: bool)
        ensures
            r == self.spec_contains(x),
    {
        self.min.raw <= x.raw && x.raw <= self.max.raw
    }

    pub fn surrounds(&self, x: Scalar) -> (r: bool)
        ensures
            r == self.spec_surrounds(x),
    {
        self.min.raw < x.raw && x.raw < self.max.raw
    }

    pub fn clamp(&self, x: Scalar) -> (r: Scalar)
        ensures
            r == self.spec_clamp(x),
    {
        if x.raw < self.min.raw {
            self.min
        } else if x.raw > self.max.raw {
            self.max
        } else {
            x
        }
    }

    pub fn world_choice(choice: IntervalWorldChoice) -> (r: Interval)
        ensures
            r == Self::spec_world_choice(choice),
    {
        match choice {
            IntervalWorldChoice::Empty => Self::new(
                Scalar::infinity(),
                Scalar::from_raw(MIN_RAW),
            ),
            IntervalWorldChoice::Universe => Self::new(
                Scalar::from_raw(MIN_RAW),
                Scalar::infinity(),
            ),
        }
    }
}

/// Whatever is clamped lands in the range, if the range has a point at all.
pub proof fn lemma_clamp_contained(interval: Interval, x: Scalar)
    requires
        interval.min.raw <= interval.max.raw,
    ensures
        interval.spec_contains(interval.spec_clamp(x)),
        interval.spec_contains(x) ==> interval.spec_clamp(x) == x,
{
}

/// The empty range holds nothing and the universe holds everything.
pub proof fn lemma_world_choice(x: Scalar)
    ensures
        !Interval::spec_world_choice(IntervalWorldChoice::Empty).spec_contains(x),
        Interval::spec_world_choice(IntervalWorldChoice::Universe).spec_contains(x),
{
}

} // verus!
