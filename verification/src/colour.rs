//! RGB colours over fixed-point channels (1.0 == SCALE raw).

use crate::fixed::{add_fx, div_fx, fx_add, fx_div, fx_mul, fx_sqrt, mul_fx, sqrt_fx};
use vstd::prelude::*;

verus! {

/// A colour; channel values are raw fixed-point numbers, nominally in
/// `[0, SCALE]` before tone mapping.
#[derive(Copy, Clone, Debug, PartialEq, Eq, Structural)]
pub struct Colour {
    pub r: i64,
    pub g: i64,
    pub b: i64,
}

/// Pure black: the zero of channelwise multiplication.
pub open spec fn black() -> Colour {
    Colour { r: 0, g: 0, b: 0 }
}

/// What `Colour::add` returns.
pub open spec fn spec_c_add(a: Colour, b: Colour) -> Colour {
    Colour {
        r: fx_add(a.r as int, b.r as int) as i64,
        g: fx_add(a.g as int, b.g as int) as i64,
        b: fx_add(a.b as int, b.b as int) as i64,
    }
}

/// What `Colour::mul` returns: channelwise modulation.
pub open spec fn spec_c_mul(a: Colour, b: Colour) -> Colour {
    Colour {
        r: fx_mul(a.r as int, b.r as int) as i64,
        g: fx_mul(a.g as int, b.g as int) as i64,
        b: fx_mul(a.b as int, b.b as int) as i64,
    }
}

/// What `Colour::scale` returns.
pub open spec fn spec_c_scale(a: Colour, k: int) -> Colour {
    Colour {
        r: fx_mul(a.r as int, k) as i64,
        g: fx_mul(a.g as int, k) as i64,
        b: fx_mul(a.b as int, k) as i64,
    }
}

/// What `Colour::div` returns.
pub open spec fn spec_c_div(a: Colour, k: int) -> Colour {
    Colour {
        r: fx_div(a.r as int, k) as i64,
        g: fx_div(a.g as int, k) as i64,
        b: fx_div(a.b as int, k) as i64,
    }
}

/// One channel clamped to `[lo, hi]`.
pub open spec fn chan_clamp(x: int, lo: int, hi: int) -> int {
    if x < lo {
        lo
    } else if x > hi {
        hi
    } else {
        x
    }
}

/// What `Colour::clamp` returns.
pub open spec fn spec_c_clamp(a: Colour, lo: int, hi: int) -> Colour {
    Colour {
        r: chan_clamp(a.r as int, lo, hi) as i64,
        g: chan_clamp(a.g as int, lo, hi) as i64,
        b: chan_clamp(a.b as int, lo, hi) as i64,
    }
}

/// What `Colour::sqrt` returns: the channelwise fixed-point square root
/// (gamma correction).
pub open spec fn spec_c_sqrt(a: Colour) -> Colour {
    Colour {
        r: fx_sqrt(a.r as int) as i64,
        g: fx_sqrt(a.g as int) as i64,
        b: fx_sqrt(a.b as int) as i64,
    }
}

impl Colour {
    pub fn from_rgb(r: i64, g: i64, b: i64) -> (c: Colour)
        ensures
            c == (Colour { r, g, b }),
    {
        Colour { r, g, b }
    }

    /// Black.
    pub fn new() -> (c: Colour)
        ensures
            c == black(),
    {
        Colour { r: 0, g: 0, b: 0 }
    }

    /// Channelwise sum, clamped to the representable range.
    pub fn add(self, other: Colour) -> (c: Colour)
        ensures
            c == spec_c_add(self, other),
    {
        Colour {
            r: add_fx(self.r, other.r),
            g: add_fx(self.g, other.g),
            b: add_fx(self.b, other.b),
        }
    }

    /// Channelwise modulation.
    pub fn mul(self, other: Colour) -> (c: Colour)
        ensures
            c == spec_c_mul(self, other),
    {
        Colour {
            r: mul_fx(self.r, other.r),
            g: mul_fx(self.g, other.g),
            b: mul_fx(self.b, other.b),
        }
    }

    /// Multiplication by a fixed-point scalar.
    pub fn scale(self, k: i64) -> (c: Colour)
        ensures
            c == spec_c_scale(self, k as int),
    {
        Colour { r: mul_fx(self.r, k), g: mul_fx(self.g, k), b: mul_fx(self.b, k) }
    }

    /// Division by a nonzero fixed-point scalar.
    pub fn div(self, k: i64) -> (c: Colour)
        requires
            k != 0,
        ensures
            c == spec_c_div(self, k as int),
    {
        Colour { r: div_fx(self.r, k), g: div_fx(self.g, k), b: div_fx(self.b, k) }
    }

    /// Channels clamped to `[min, max]`.
    pub fn clamp(self, min: i64, max: i64) -> (c: Colour)
        requires
            min <= max,
        ensures
            c == spec_c_clamp(self, min as int, max as int),
    {
        let r = if self.r < min {
            min
        } else if self.r > max {
            max
        } else {
            self.r
        };
        let g = if self.g < min {
            min
        } else if self.g > max {
            max
        } else {
            self.g
        };
        let b = if self.b < min {
            min
        } else if self.b > max {
            max
        } else {
            self.b
        };
        Colour { r, g, b }
    }

    /// Channelwise square root, for gamma correction of averaged samples.
    pub fn sqrt(self) -> (c: Colour)
        requires
            self.r >= 0,
            self.g >= 0,
            self.b >= 0,
        ensures
            c == spec_c_sqrt(self),
    {
        Colour { r: sqrt_fx(self.r), g: sqrt_fx(self.g), b: sqrt_fx(self.b) }
    }
}

} // verus!
