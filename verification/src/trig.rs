//! Powers, angles and the circular functions of fixed-point numbers.
//!
//! Sine and cosine are evaluated as truncated power series after the angle has
//! been brought into one quarter turn; the arc sine is found by bisection on
//! the sine. Each result is stated exactly, as the value that the same steps
//! give in fixed-point arithmetic.
use vstd::prelude::*;
use crate::scalar::Real;
use crate::scalar::ONE_RAW;
use crate::scalar::PI_RAW;
use crate::scalar::TWO_PI_RAW;
use crate::scalar::HALF_PI_RAW;

verus! {

/// The last factor pair of the sine series: its highest power is the 13th.
pub const SINE_LAST: u8 = 12;

/// The last factor pair of the cosine series: its highest power is the 14th.
pub const COSINE_LAST: u8 = 13;

/// The number of halvings that the arc sine makes.
pub const ARC_STEPS: u8 = 34;

/// `x` kept between minus one and one.
pub open spec fn clamp_unit(x: Real) -> Real {
    if x.raw > ONE_RAW {
        Real { raw: ONE_RAW }
    } else if x.raw < -ONE_RAW {
        Real { raw: (-ONE_RAW) as i64 }
    } else {
        x
    }
}

/// The nested form of an alternating power series in `y2`, from the factor
/// pair `k (k + 1)` up to the pair that starts at `last`:
/// `1 - y2 / (k (k + 1)) * (1 - y2 / ((k + 2) (k + 3)) * (...))`.
pub open spec fn series(y2: Real, k: int, last: int) -> Real
    decreases last + 2 - k,
{
    if k > last {
        Real { raw: ONE_RAW }
    } else {
        Real { raw: ONE_RAW }.sub(
            y2.mul(series(y2, k + 2, last)).div(Real { raw: (k * (k + 1) * ONE_RAW) as i64 }),
        )
    }
}

/// The sine series at `y`, an angle within the first quarter turn.
pub open spec fn sine_series(y: Real) -> Real {
    y.mul(series(y.mul(y), 2, SINE_LAST as int))
}

/// The cosine series at `y`, an angle within the first quarter turn.
pub open spec fn cosine_series(y: Real) -> Real {
    series(y.mul(y), 1, COSINE_LAST as int)
}

/// The angle `x` brought into one full turn, from zero.
pub open spec fn turn_part(x: Real) -> int {
    x@ % (TWO_PI_RAW as int)
}

/// The quarter of the turn in which the angle `x` lies: 0, 1, 2 or 3.
pub open spec fn quarter(x: Real) -> int {
    let q = turn_part(x) / (HALF_PI_RAW as int);
    if q > 3 {
        3
    } else {
        q
    }
}

/// What the angle `x` has beyond the start of its quarter.
pub open spec fn quarter_part(x: Real) -> Real {
    Real { raw: (turn_part(x) - quarter(x) * HALF_PI_RAW) as i64 }
}

/// The arc sine of `v` by bisection: the lower end of the interval that is
/// left of `[lo, hi]` after `steps` halvings, each of which keeps the half in
/// which the sine passes `v`.
pub open spec fn arc_search(v: Real, lo: Real, hi: Real, steps: nat) -> Real
    decreases steps,
{
    if steps == 0 {
        lo
    } else {
        let mid = Real { raw: (lo@ + (hi@ - lo@) / 2) as i64 };
        if mid.spec_sin()@ <= v@ {
            arc_search(v, mid, hi, (steps - 1) as nat)
        } else {
            arc_search(v, lo, mid, (steps - 1) as nat)
        }
    }
}

/// The value of `series` from `k` to `last`, for `k` of the parity of `last`.
fn series_of(y2: Real, first: u8, last: u8) -> (r: Real)
    requires
        1 <= first <= last <= 40,
        (last - first) % 2 == 0,
    ensures
        r == series(y2, first as int, last as int),
{
    let mut acc = Real::one();
    let mut k: u8 = last + 2;
    while k > first
        invariant
            first <= k <= last + 2,
            1 <= first <= last <= 40,
            (k - first) % 2 == 0,
            acc == series(y2, k as int, last as int),
        decreases k,
    {
        k = k - 2;
        assert(0 <= k * (k + 1) <= 40 * 41) by (nonlinear_arith)
            requires
                0 <= k <= 40,
        ;
        let pair: i32 = (k as i32) * (k as i32 + 1);
        acc = Real::one() - (y2 * acc) / Real::from_int(pair);
    }
    acc
}

impl Real {
    /// This number to the power `n`, by repeated multiplication.
    pub open spec fn spec_powi(self, n: u32) -> Real
        decreases n,
    {
        if n == 0 {
            Real { raw: ONE_RAW }
        } else {
            self.spec_powi((n - 1) as u32).mul(self)
        }
    }

    /// This number to the power `n`, by repeated multiplication.
    #[verifier::when_used_as_spec(spec_powi)]
    pub fn powi(self, n: u32) -> (r: Real)
        ensures
            r == self.spec_powi(n),
    {
        let mut acc = Real::one();
        let mut i: u32 = 0;
        while i < n
            invariant
                i <= n,
                acc == self.spec_powi(i),
            decreases n - i,
        {
            acc = acc * self;
            i = i + 1;
        }
        acc
    }

    /// This number of degrees in radians.
    pub open spec fn spec_to_radians(self) -> Real {
        self.mul(Real { raw: PI_RAW }).div(Real { raw: (180 * ONE_RAW) as i64 })
    }

    /// This number of degrees in radians.
    #[verifier::when_used_as_spec(spec_to_radians)]
    pub fn to_radians(self) -> (r: Real)
        ensures
            r == self.spec_to_radians(),
    {
        self * Real::from_raw(PI_RAW) / Real::from_int(180)
    }

    /// The sine of this angle, in radians.
    pub open spec fn spec_sin(self) -> Real {
        let y = quarter_part(self);
        let q = quarter(self);
        clamp_unit(
            if q == 0 {
                sine_series(y)
            } else if q == 1 {
                cosine_series(y)
            } else if q == 2 {
                sine_series(y).neg()
            } else {
                cosine_series(y).neg()
            },
        )
    }

    /// The cosine of this angle, in radians.
    pub open spec fn spec_cos(self) -> Real {
        let y = quarter_part(self);
        let q = quarter(self);
        clamp_unit(
            if q == 0 {
                cosine_series(y)
            } else if q == 1 {
                sine_series(y).neg()
            } else if q == 2 {
                cosine_series(y).neg()
            } else {
                sine_series(y)
            },
        )
    }

    /// This angle brought into one full turn, from zero.
    pub fn wrapped(self) -> (r: Real)
        ensures
            r@ == turn_part(self),
            0 <= r@ < TWO_PI_RAW,
    {
        let rem: i64 = self.raw % TWO_PI_RAW;
        if rem < 0 {
            Real { raw: rem + TWO_PI_RAW }
        } else {
            Real { raw: rem }
        }
    }

    /// The quarter of the turn in which this angle lies, and what the angle
    /// has beyond the start of that quarter.
    fn reduce(self) -> (r: (u8, Real))
        ensures
            r.0 == quarter(self),
            r.1 == quarter_part(self),
            r.0 <= 3,
            0 <= r.1@ <= HALF_PI_RAW + 1,
    {
        let rem: i64 = self.raw % TWO_PI_RAW;
        let t: i64 = if rem < 0 {
            rem + TWO_PI_RAW
        } else {
            rem
        };
        let whole: i64 = t / HALF_PI_RAW;
        let q: i64 = if whole > 3 {
            3
        } else {
            whole
        };
        (q as u8, Real { raw: t - q * HALF_PI_RAW })
    }

    /// `x` kept between minus one and one.
    fn clamped_unit(x: Real) -> (r: Real)
        ensures
            r == clamp_unit(x),
            -ONE_RAW <= r@ <= ONE_RAW,
    {
        if x.raw > ONE_RAW {
            Real { raw: ONE_RAW }
        } else if x.raw < -ONE_RAW {
            Real { raw: -ONE_RAW }
        } else {
            x
        }
    }

    /// The sine of this angle, in radians: between minus one and one.
    #[verifier::when_used_as_spec(spec_sin)]
    pub fn sin(self) -> (r: Real)
        ensures
            r == self.spec_sin(),
            -ONE_RAW <= r@ <= ONE_RAW,
    {
        let (q, y) = self.reduce();
        let y2 = y * y;
        let value = if q == 0 {
            y * series_of(y2, 2, SINE_LAST)
        } else if q == 1 {
            series_of(y2, 1, COSINE_LAST)
        } else if q == 2 {
            (y * series_of(y2, 2, SINE_LAST)).neg()
        } else {
            series_of(y2, 1, COSINE_LAST).neg()
        };
        Real::clamped_unit(value)
    }

    /// The cosine of this angle, in radians: between minus one and one.
    #[verifier::when_used_as_spec(spec_cos)]
    pub fn cos(self) -> (r: Real)
        ensures
            r == self.spec_cos(),
            -ONE_RAW <= r@ <= ONE_RAW,
    {
        let (q, y) = self.reduce();
        let y2 = y * y;
        let value = if q == 0 {
            series_of(y2, 1, COSINE_LAST)
        } else if q == 1 {
            (y * series_of(y2, 2, SINE_LAST)).neg()
        } else if q == 2 {
            series_of(y2, 1, COSINE_LAST).neg()
        } else {
            y * series_of(y2, 2, SINE_LAST)
        };
        Real::clamped_unit(value)
    }

    /// The tangent of this angle: its sine divided by its cosine.
    pub open spec fn spec_tan(self) -> Real {
        self.spec_sin().div(self.spec_cos())
    }

    /// The tangent of this angle: its sine divided by its cosine.
    #[verifier::when_used_as_spec(spec_tan)]
    pub fn tan(self) -> (r: Real)
        ensures
            r == self.spec_tan(),
    {
        self.sin() / self.cos()
    }

    /// The angle between minus a quarter turn and a quarter turn at which the
    /// sine passes this number.
    pub open spec fn spec_asin(self) -> Real {
        arc_search(
            self,
            Real { raw: (-HALF_PI_RAW) as i64 },
            Real { raw: HALF_PI_RAW },
            ARC_STEPS as nat,
        )
    }

    /// The angle between minus a quarter turn and a quarter turn at which the
    /// sine passes this number.
    #[verifier::when_used_as_spec(spec_asin)]
    pub fn asin(self) -> (r: Real)
        ensures
            r == self.spec_asin(),
            -HALF_PI_RAW <= r@ <= HALF_PI_RAW,
    {
        let mut lo = Real { raw: -HALF_PI_RAW };
        let mut hi = Real { raw: HALF_PI_RAW };
        let mut left: u8 = ARC_STEPS;
        while left > 0
            invariant
                -HALF_PI_RAW <= lo@ <= hi@ <= HALF_PI_RAW,
                left <= ARC_STEPS,
                arc_search(self, lo, hi, left as nat) == self.spec_asin(),
            decreases left,
        {
            let mid = Real { raw: lo.raw + (hi.raw - lo.raw) / 2 };
            if mid.sin().le(self) {
                lo = mid;
            } else {
                hi = mid;
            }
            left = left - 1;
        }
        lo
    }
}

/// A power of a share is a share.
pub proof fn lemma_powi_share(a: Real, n: u32)
    requires
        0 <= a@ <= ONE_RAW,
    ensures
        0 <= a.spec_powi(n)@ <= ONE_RAW,
    decreases n,
{
    if n > 0 {
        lemma_powi_share(a, (n - 1) as u32);
        crate::scalar::lemma_mul_share(a.spec_powi((n - 1) as u32), a);
    }
}

} // verus!
