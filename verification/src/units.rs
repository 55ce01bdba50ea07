//! Scalar command quantities, held in fixed point.
//!
//! Power and turn rate are normalized scalars in `[-1, 1]`; the heading
//! is a signed angle in radians.  All three are stored as integer
//! thousandths of their unit, so contracts can speak of them exactly.

use vstd::prelude::*;

verus! {

/// Fixed-point scale: stored values count thousandths of one unit.
pub const MILLIS_PER_UNIT: i64 = 1000;

/// Magnitude bound of a normalized scalar (power, turn), in thousandths.
pub const SCALAR_LIMIT_MILLIS: i64 = 1000;

/// Magnitude bound of a heading angle, in thousandths of a radian.
/// Far beyond any meaningful command, but keeps the arithmetic exact.
pub const ANGLE_LIMIT_MILLIS: i64 = 10_000_000_000;

/// Clamp `v` into `[-limit, limit]`.
pub open spec fn clamp_millis(v: int, limit: int) -> int {
    if v < -limit {
        -limit
    } else if v > limit {
        limit
    } else {
        v
    }
}

/// Normalized drive power, thousandths of full scale, in `[-1000, 1000]`.
#[derive(Clone, Copy, Debug, PartialEq, Eq, Structural)]
pub struct Power {
    millis: i64,
}

/// Heading angle, thousandths of a radian.
#[derive(Clone, Copy, Debug, PartialEq, Eq, Structural)]
pub struct Angle {
    millis: i64,
}

/// Normalized turn rate, thousandths of full scale, in `[-1000, 1000]`.
#[derive(Clone, Copy, Debug, PartialEq, Eq, Structural)]
pub struct Turn {
    millis: i64,
}

impl Power {
    /// The stored value, as a mathematical integer.
    pub closed spec fn spec_millis(&self) -> int {
        self.millis as int
    }

    /// The value lies within the normalized range.
    pub open spec fn wf(&self) -> bool {
        -SCALAR_LIMIT_MILLIS <= self.spec_millis() <= SCALAR_LIMIT_MILLIS
    }

    /// Build a power value, clamping into the normalized range.
    pub fn new(millis: i64) -> (r: Power)
        ensures
            r.wf(),
            r.spec_millis() == clamp_millis(millis as int, SCALAR_LIMIT_MILLIS as int),
    {
        let clamped: i64 = if millis < -SCALAR_LIMIT_MILLIS {
            -SCALAR_LIMIT_MILLIS
        } else if millis > SCALAR_LIMIT_MILLIS {
            SCALAR_LIMIT_MILLIS
        } else {
            millis
        };
        Power { millis: clamped }
    }

    /// The neutral power value.
    pub fn zero() -> (r: Power)
        ensures
            r.wf(),
            r.spec_millis() == 0,
    {
        Power { millis: 0 }
    }

    /// Read the stored thousandths.
    pub fn millis(&self) -> (r: i64)
        ensures
            r as int == self.spec_millis(),
    {
        self.millis
    }
}

impl Angle {
    /// The stored value, as a mathematical integer.
    pub closed spec fn spec_millis(&self) -> int {
        self.millis as int
    }

    /// The value lies within the representable angle range.
    pub open spec fn wf(&self) -> bool {
        -ANGLE_LIMIT_MILLIS <= self.spec_millis() <= ANGLE_LIMIT_MILLIS
    }

    /// Build an angle value, clamping into the representable range.
    pub fn new(millis: i64) -> (r: Angle)
        ensures
            r.wf(),
            r.spec_millis() == clamp_millis(millis as int, ANGLE_LIMIT_MILLIS as int),
    {
        let clamped: i64 = if millis < -ANGLE_LIMIT_MILLIS {
            -ANGLE_LIMIT_MILLIS
        } else if millis > ANGLE_LIMIT_MILLIS {
            ANGLE_LIMIT_MILLIS
        } else {
            millis
        };
        Angle { millis: clamped }
    }

    /// The neutral heading value.
    pub fn zero() -> (r: Angle)
        ensures
            r.wf(),
            r.spec_millis() == 0,
    {
        Angle { millis: 0 }
    }

    /// Read the stored thousandths of a radian.
    pub fn millis(&self) -> (r: i64)
        ensures
            r as int == self.spec_millis(),
    {
        self.millis
    }
}

impl Turn {
    /// The stored value, as a mathematical integer.
    pub closed spec fn spec_millis(&self) -> int {
        self.millis as int
    }

    /// The value lies within the normalized range.
    pub open spec fn wf(&self) -> bool {
        -SCALAR_LIMIT_MILLIS <= self.spec_millis() <= SCALAR_LIMIT_MILLIS
    }

    /// Build a turn value, clamping into the normalized range.
    pub fn new(millis: i64) -> (r: Turn)
        ensures
            r.wf(),
            r.spec_millis() == clamp_millis(millis as int, SCALAR_LIMIT_MILLIS as int),
    {
        let clamped: i64 = if millis < -SCALAR_LIMIT_MILLIS {
            -SCALAR_LIMIT_MILLIS
        } else if millis > SCALAR_LIMIT_MILLIS {
            SCALAR_LIMIT_MILLIS
        } else {
            millis
        };
        Turn { millis: clamped }
    }

    /// The neutral turn value.
    pub fn zero() -> (r: Turn)
        ensures
            r.wf(),
            r.spec_millis() == 0,
    {
        Turn { millis: 0 }
    }

    /// Read the stored thousandths.
    pub fn millis(&self) -> (r: i64)
        ensures
            r as int == self.spec_millis(),
    {
        self.millis
    }
}

} // verus!
