use vstd::prelude::*;

verus! {

/// `a / b` rounded toward zero, for `b > 0`.
pub open spec fn trunc_div(a: int, b: int) -> int {
    if a >= 0 {
        a / b
    } else {
        -((-a) / b)
    }
}

/// `x` held in an `i64`, saturating at its bounds.
pub open spec fn saturate(x: int) -> i64 {
    if x > i64::MAX {
        i64::MAX
    } else if x < i64::MIN {
        i64::MIN
    } else {
        x as i64
    }
}

/// An exact fraction `num / den`; the value of a floating-point channel.
#[derive(Debug, Clone, Copy, PartialEq, Eq, Structural)]
pub struct Frac {
    pub num: i64,
    pub den: i64,
}

/// The fraction `0/1`.
pub open spec fn zero() -> Frac {
    Frac { num: 0, den: 1 }
}

/// The fraction `1/1`.
pub open spec fn one() -> Frac {
    Frac { num: 1, den: 1 }
}

impl Frac {
    /// A well-formed fraction has a positive denominator.
    pub open spec fn wf(self) -> bool {
        self.den > 0
    }

    /// The value lies in `0.0..=1.0`.
    pub open spec fn in_unit(self) -> bool {
        0 <= self.num <= self.den
    }

    /// The value brought into `0.0..=1.0`.
    pub open spec fn spec_clamp_unit(self) -> Frac {
        if self.num < 0 {
            zero()
        } else if self.num > self.den {
            one()
        } else {
            self
        }
    }

    /// The value times 255, truncated toward zero, as an `i64`.
    pub open spec fn spec_to_byte(self) -> i64 {
        saturate(trunc_div(self.num * 255, self.den as int))
    }

    pub fn new(num: i64, den: i64) -> (r: Frac)
        requires
            den > 0,
        ensures
            r == (Frac { num, den }),
            r.wf(),
    {
        Frac { num, den }
    }

    pub fn is_in_unit(&self) -> (r: bool)
        ensures
            r == self.in_unit(),
    {
        0 <= self.num && self.num <= self.den
    }

    pub fn clamp_unit(&self) -> (r: Frac)
        requires
            self.wf(),
        ensures
            r == self.spec_clamp_unit(),
            r.wf(),
            r.in_unit(),
    {
        if self.num < 0 {
            Frac { num: 0, den: 1 }
        } else if self.num > self.den {
            Frac { num: 1, den: 1 }
        } else {
            *self
        }
    }

    /// The value with its sign flipped.
    pub fn negate(&self) -> (r: Frac)
        requires
            self.num > i64::MIN,
        ensures
            r.num == -self.num,
            r.den == self.den,
    {
        Frac { num: -self.num, den: self.den }
    }

    /// The channel as a byte value: times 255, truncated toward zero.
    pub fn to_byte(&self) -> (r: i64)
        requires
            self.wf(),
        ensures
            r == self.spec_to_byte(),
    {
        let n = self.num as i128;
        let d = self.den as u128;
        let m: u128 = if n >= 0 {
            n as u128
        } else {
            (0 - n) as u128
        };
        assert(m * 255 <= 255 * 9223372036854775808) by (nonlinear_arith)
            requires
                m <= 9223372036854775808,
        ;
        let q: u128 = m * 255 / d;
        assert(q <= m * 255) by (nonlinear_arith)
            requires
                d >= 1,
                q == (m * 255) / (d as int),
        ;
        if n >= 0 {
            if q > 9223372036854775807 {
                i64::MAX
            } else {
                q as i64
            }
        } else {
            if q > 9223372036854775808 {
                i64::MIN
            } else {
                (0 - (q as i128)) as i64
            }
        }
    }
}

} // verus!
