//! Two-dimensional execution weight: computation time and proof size.

use vstd::prelude::*;

verus! {

/// The largest of `0` and `a - b`.
pub open spec fn floor_sub(a: int, b: int) -> int {
    if a >= b {
        a - b
    } else {
        0
    }
}

/// The smaller of `v` and `cap`.
pub open spec fn capped(v: int, cap: int) -> int {
    if v <= cap {
        v
    } else {
        cap
    }
}

/// Product of two `u64` values, capped at `u64::MAX`.
pub fn saturating_mul_u64(a: u64, b: u64) -> (r: u64)
    ensures
        r == capped(a * b, u64::MAX as int),
{
    match a.checked_mul(b) {
        Some(v) => v,
        None => u64::MAX,
    }
}

/// Product of two `u128` values, capped at `u128::MAX`.
pub fn saturating_mul_u128(a: u128, b: u128) -> (r: u128)
    ensures
        r == capped(a * b, u128::MAX as int),
{
    match a.checked_mul(b) {
        Some(v) => v,
        None => u128::MAX,
    }
}

/// An amount of work in two dimensions. Both components are metered independently.
#[derive(Clone, Copy, Debug, PartialEq, Eq, Structural)]
pub struct Weight {
    pub ref_time: u64,
    pub proof_size: u64,
}

impl Weight {
    /// Componentwise `self <= other`.
    pub open spec fn all_lte(self, other: Weight) -> bool {
        self.ref_time <= other.ref_time && self.proof_size <= other.proof_size
    }

    /// Componentwise saturating sum.
    pub open spec fn spec_saturating_add(self, rhs: Weight) -> Weight {
        Weight {
            ref_time: capped(self.ref_time + rhs.ref_time, u64::MAX as int) as u64,
            proof_size: capped(self.proof_size + rhs.proof_size, u64::MAX as int) as u64,
        }
    }

    /// Componentwise difference, floored at zero.
    pub open spec fn spec_saturating_sub(self, rhs: Weight) -> Weight {
        Weight {
            ref_time: floor_sub(self.ref_time as int, rhs.ref_time as int) as u64,
            proof_size: floor_sub(self.proof_size as int, rhs.proof_size as int) as u64,
        }
    }

    /// Componentwise product with a scalar, capped at `u64::MAX`.
    pub open spec fn spec_saturating_mul(self, scalar: u64) -> Weight {
        Weight {
            ref_time: capped(self.ref_time * scalar, u64::MAX as int) as u64,
            proof_size: capped(self.proof_size * scalar, u64::MAX as int) as u64,
        }
    }

    /// Componentwise minimum.
    pub open spec fn spec_min(self, other: Weight) -> Weight {
        Weight {
            ref_time: if self.ref_time <= other.ref_time {
                self.ref_time
            } else {
                other.ref_time
            },
            proof_size: if self.proof_size <= other.proof_size {
                self.proof_size
            } else {
                other.proof_size
            },
        }
    }

    /// The weight with both components zero.
    pub fn zero() -> (w: Weight)
        ensures
            w == (Weight { ref_time: 0, proof_size: 0 }),
    {
        Weight { ref_time: 0, proof_size: 0 }
    }

    /// Builds a weight from its two components.
    pub fn from_parts(ref_time: u64, proof_size: u64) -> (w: Weight)
        ensures
            w == (Weight { ref_time, proof_size }),
    {
        Weight { ref_time, proof_size }
    }

    /// Whether both components are zero.
    pub fn is_zero(&self) -> (r: bool)
        ensures
            r == (self.ref_time == 0 && self.proof_size == 0),
    {
        self.ref_time == 0 && self.proof_size == 0
    }

    /// Whether every component of `self` is at most the same component of `other`.
    pub fn all_lte_exec(&self, other: &Weight) -> (r: bool)
        ensures
            r == self.all_lte(*other),
    {
        self.ref_time <= other.ref_time && self.proof_size <= other.proof_size
    }

    pub fn saturating_add(&self, rhs: &Weight) -> (w: Weight)
        ensures
            w == self.spec_saturating_add(*rhs),
    {
        Weight {
            ref_time: self.ref_time.saturating_add(rhs.ref_time),
            proof_size: self.proof_size.saturating_add(rhs.proof_size),
        }
    }

    pub fn saturating_sub(&self, rhs: &Weight) -> (w: Weight)
        ensures
            w == self.spec_saturating_sub(*rhs),
    {
        Weight {
            ref_time: self.ref_time.saturating_sub(rhs.ref_time),
            proof_size: self.proof_size.saturating_sub(rhs.proof_size),
        }
    }

    pub fn saturating_mul(&self, scalar: u64) -> (w: Weight)
        ensures
            w == self.spec_saturating_mul(scalar),
    {
        Weight {
            ref_time: saturating_mul_u64(self.ref_time, scalar),
            proof_size: saturating_mul_u64(self.proof_size, scalar),
        }
    }

    /// `self - rhs` when no component would go below zero, `None` otherwise.
    pub fn checked_sub(&self, rhs: &Weight) -> (r: Option<Weight>)
        ensures
            rhs.all_lte(*self) ==> r == Some(
                (Weight {
                    ref_time: (self.ref_time - rhs.ref_time) as u64,
                    proof_size: (self.proof_size - rhs.proof_size) as u64,
                }),
            ),
            !rhs.all_lte(*self) ==> r.is_none(),
    {
        if rhs.ref_time <= self.ref_time && rhs.proof_size <= self.proof_size {
            Some(
                Weight {
                    ref_time: self.ref_time - rhs.ref_time,
                    proof_size: self.proof_size - rhs.proof_size,
                },
            )
        } else {
            None
        }
    }

    pub fn min(&self, other: &Weight) -> (w: Weight)
        ensures
            w == self.spec_min(*other),
    {
        Weight {
            ref_time: if self.ref_time <= other.ref_time {
                self.ref_time
            } else {
                other.ref_time
            },
            proof_size: if self.proof_size <= other.proof_size {
                self.proof_size
            } else {
                other.proof_size
            },
        }
    }
}

} // verus!
