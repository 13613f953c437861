//! Fixed-point real numbers.
//!
//! A `Real` is a signed 64-bit integer that counts units of 2^-32, so it covers
//! the range from -2^31 to just under 2^31 with a uniform resolution of about
//! 2.3e-10. Every operation is total: a result that leaves the range sticks at
//! the nearest end, products and quotients are rounded toward zero, and the
//! largest value doubles as "infinity".
use vstd::prelude::*;

verus! {

/// The raw value of 1.
pub const ONE_RAW: i64 = 0x1_0000_0000;

/// The raw value of 2.
pub const TWO_RAW: i64 = 0x2_0000_0000;

/// The raw value of one half.
pub const HALF_RAW: i64 = 0x8000_0000;

/// The raw value of the largest `Real`.
pub const MAX_RAW: i64 = 0x7fff_ffff_ffff_ffff;

/// The raw value of pi, rounded to the nearest unit.
pub const PI_RAW: i64 = 13493037705;

/// The raw value of two pi, rounded to the nearest unit.
pub const TWO_PI_RAW: i64 = 26986075409;

/// The raw value of half of pi, rounded to the nearest unit.
pub const HALF_PI_RAW: i64 = 6746518852;

/// The distance of `x` from zero.
pub open spec fn magnitude(x: int) -> int {
    if x < 0 {
        -x
    } else {
        x
    }
}

/// The value of the nearest `i64` to `x`.
pub open spec fn saturate(x: int) -> i64 {
    if x < i64::MIN {
        i64::MIN
    } else if x > i64::MAX {
        i64::MAX
    } else {
        x as i64
    }
}

/// `m` with a sign in front of it.
pub open spec fn signed(negative: bool, m: int) -> int {
    if negative {
        -m
    } else {
        m
    }
}

/// The integer square root of `n`: `r` is it exactly when this holds.
pub open spec fn is_isqrt(n: int, r: int) -> bool {
    0 <= r && r * r <= n < (r + 1) * (r + 1)
}

/// The integer square root, by halving: defined for every `n`, zero below one.
pub open spec fn isqrt(n: int) -> int
    decreases n,
{
    if n <= 0 {
        0
    } else {
        let r = 2 * isqrt(n / 4);
        if (r + 1) * (r + 1) <= n {
            r + 1
        } else {
            r
        }
    }
}

/// `isqrt` meets the defining inequality of the integer square root.
pub proof fn lemma_isqrt_is_isqrt(n: int)
    requires
        0 <= n,
    ensures
        is_isqrt(n, isqrt(n)),
    decreases n,
{
    if n > 0 {
        lemma_isqrt_is_isqrt(n / 4);
        let s = isqrt(n / 4);
        let r = 2 * s;
        assert(r * r <= n && n < (r + 2) * (r + 2)) by (nonlinear_arith)
            requires
                0 <= s,
                s * s <= n / 4,
                n / 4 < (s + 1) * (s + 1),
                r == 2 * s,
                0 <= n,
        ;
        assert((r + 1) * (r + 1) <= n ==> n < (r + 1 + 1) * (r + 1 + 1));
    } else {
        assert(isqrt(n) == 0);
    }
}

/// Only one number meets the defining inequality of the integer square root.
pub proof fn lemma_isqrt_unique(n: int, r: int, s: int)
    requires
        is_isqrt(n, r),
        is_isqrt(n, s),
    ensures
        r == s,
{
    assert(r == s) by (nonlinear_arith)
        requires
            0 <= r,
            r * r <= n,
            n < (r + 1) * (r + 1),
            0 <= s,
            s * s <= n,
            n < (s + 1) * (s + 1),
    ;
}

/// A product with a share, a number from zero to one, of a number that is
/// not negative lies between zero and that number.
pub proof fn lemma_mul_share(a: Real, b: Real)
    requires
        0 <= a@,
        0 <= b@ <= ONE_RAW,
    ensures
        0 <= a.mul(b)@ <= a@,
{
    let p = a@ * b@;
    assert(0 <= p <= a@ * ONE_RAW) by (nonlinear_arith)
        requires
            p == a@ * b@,
            0 <= a@,
            0 <= b@ <= ONE_RAW,
    ;
    assert(0 <= p / (ONE_RAW as int) <= a@) by (nonlinear_arith)
        requires
            0 <= p <= a@ * ONE_RAW,
            ONE_RAW == 0x1_0000_0000,
    ;
}

/// A quotient of a number by one that is at least as large, both not
/// negative and the second not zero, is a share.
pub proof fn lemma_div_share(a: Real, b: Real)
    requires
        0 <= a@ <= b@,
        0 < b@,
    ensures
        0 <= a.div(b)@ <= ONE_RAW,
{
    let n = a@ * ONE_RAW;
    assert(0 <= n / b@ <= ONE_RAW) by (nonlinear_arith)
        requires
            n == a@ * ONE_RAW,
            0 <= a@ <= b@,
            0 < b@,
            ONE_RAW == 0x1_0000_0000,
    ;
}

/// A square root is not negative, and stays below 2^16.
pub proof fn lemma_sqrt_bounds(a: Real)
    ensures
        0 <= a.sqrt()@ < 0x1_0000_0000_0000,
        a@ > 0 ==> a.sqrt()@ == isqrt(a@ * ONE_RAW),
{
    if a@ > 0 {
        let n = a@ * ONE_RAW;
        lemma_isqrt_is_isqrt(n);
        let r = isqrt(n);
        assert(r < 0x1_0000_0000_0000) by (nonlinear_arith)
            requires
                0 <= r,
                r * r <= n,
                n < 0x1_0000_0000_0000 * 0x1_0000_0000_0000,
        ;
    }
}

/// The square root of a number from zero to one lies between zero and one.
pub proof fn lemma_sqrt_share(a: Real)
    requires
        0 <= a@ <= ONE_RAW,
    ensures
        0 <= a.sqrt()@ <= ONE_RAW,
{
    if a@ > 0 {
        let n = a@ * ONE_RAW;
        lemma_isqrt_is_isqrt(n);
        let r = isqrt(n);
        assert(r <= ONE_RAW) by (nonlinear_arith)
            requires
                0 <= r,
                r * r <= n,
                n <= ONE_RAW * ONE_RAW,
                ONE_RAW > 0,
        ;
    }
}

/// A fixed-point number: `raw` counts units of 2^-32.
#[derive(Clone, Copy, Debug, PartialEq, Eq, PartialOrd, Ord, Hash, Structural)]
pub struct Real {
    pub raw: i64,
}

impl View for Real {
    type V = int;

    open spec fn view(&self) -> int {
        self.raw as int
    }
}

/// The integer square root of `n`, found by bisection, for any `n`.
pub(crate) fn isqrt_wide(n: u128) -> (r: u128)
    ensures
        r == isqrt(n as int),
        is_isqrt(n as int, r as int),
        r < 0x1_0000_0000_0000_0000,
{
    let mut lo: u128 = 0;
    let mut hi: u128 = 0x1_0000_0000_0000_0000;
    assert(0x1_0000_0000_0000_0000 * 0x1_0000_0000_0000_0000
        == 0x1_0000_0000_0000_0000_0000_0000_0000_0000int) by (nonlinear_arith);
    while hi - lo > 1
        invariant
            lo < hi <= 0x1_0000_0000_0000_0000,
            lo * lo <= n < hi * hi,
        decreases hi - lo,
    {
        let mid: u128 = lo + (hi - lo) / 2;
        assert(mid * mid <= 0xffff_ffff_ffff_ffff * 0xffff_ffff_ffff_ffff) by (nonlinear_arith)
            requires
                0 <= mid <= 0xffff_ffff_ffff_ffff,
        ;
        assert(0xffff_ffff_ffff_ffff * 0xffff_ffff_ffff_ffff
            == 0xffff_ffff_ffff_fffe_0000_0000_0000_0001int) by (nonlinear_arith);
        if mid * mid <= n {
            lo = mid;
        } else {
            hi = mid;
        }
    }
    proof {
        assert(hi == lo + 1);
        lemma_isqrt_is_isqrt(n as int);
        lemma_isqrt_unique(n as int, lo as int, isqrt(n as int));
    }
    lo
}

/// The distance of `x` from zero, as an unsigned number.
pub(crate) fn magnitude_of(x: i64) -> (m: u128)
    ensures
        m == magnitude(x as int),
        m <= 0x8000_0000_0000_0000,
{
    if x >= 0 {
        x as u128
    } else {
        (-(x as i128)) as u128
    }
}

/// The `Real` nearest to `m` with the given sign.
fn from_sign_magnitude(negative: bool, m: u128) -> (r: Real)
    ensures
        r.raw == saturate(signed(negative, m as int)),
{
    if negative {
        if m >= 0x8000_0000_0000_0000 {
            Real { raw: i64::MIN }
        } else {
            Real { raw: -(m as i64) }
        }
    } else {
        if m > 0x7fff_ffff_ffff_ffff {
            Real { raw: i64::MAX }
        } else {
            Real { raw: m as i64 }
        }
    }
}

impl Real {
    /// The number whose raw value is `raw`.
    pub fn from_raw(raw: i64) -> (r: Real)
        ensures
            r.raw == raw,
    {
        Real { raw }
    }

    /// The whole number `n`.
    pub open spec fn spec_from_int(n: i32) -> Real {
        Real { raw: (n * ONE_RAW) as i64 }
    }

    /// The whole number `n`.
    #[verifier::when_used_as_spec(spec_from_int)]
    pub fn from_int(n: i32) -> (r: Real)
        ensures
            r == Real::spec_from_int(n),
            r@ == n * ONE_RAW,
    {
        Real { raw: (n as i64) * ONE_RAW }
    }

    /// The fraction `n / d`, rounded toward zero.
    pub open spec fn spec_from_ratio(n: i32, d: i32) -> Real {
        Real::spec_from_int(n).div(Real::spec_from_int(d))
    }

    /// The fraction `n / d`, rounded toward zero.
    #[verifier::when_used_as_spec(spec_from_ratio)]
    pub fn from_ratio(n: i32, d: i32) -> (r: Real)
        ensures
            r == Real::spec_from_ratio(n, d),
    {
        Real::from_int(n).div(Real::from_int(d))
    }

    /// The whole number `n`, kept in range.
    pub open spec fn spec_from_usize(n: usize) -> Real {
        Real { raw: saturate(n * ONE_RAW) }
    }

    /// The whole number `n`, kept in range.
    #[verifier::when_used_as_spec(spec_from_usize)]
    pub fn from_usize(n: usize) -> (r: Real)
        ensures
            r == Real::spec_from_usize(n),
    {
        if n > 0x7fff_ffff {
            Real { raw: MAX_RAW }
        } else {
            Real { raw: (n as i64) * ONE_RAW }
        }
    }

    /// Zero.
    pub fn zero() -> (r: Real)
        ensures
            r@ == 0,
    {
        Real { raw: 0 }
    }

    /// One.
    pub fn one() -> (r: Real)
        ensures
            r@ == ONE_RAW,
    {
        Real { raw: ONE_RAW }
    }

    /// The largest value, which stands for "no bound" and "no hit".
    pub fn infinity() -> (r: Real)
        ensures
            r@ == MAX_RAW,
    {
        Real { raw: MAX_RAW }
    }

    /// The smallest positive value: one unit.
    pub fn epsilon() -> (r: Real)
        ensures
            r@ == 1,
    {
        Real { raw: 1 }
    }

    /// The sum, kept in range.
    pub open spec fn spec_add(self, rhs: Real) -> Real {
        Real { raw: saturate(self.raw + rhs.raw) }
    }

    /// The sum, kept in range.
    #[verifier::when_used_as_spec(spec_add)]
    pub fn add(self, rhs: Real) -> (r: Real)
        ensures
            r == self.spec_add(rhs),
    {
        let s: i128 = (self.raw as i128) + (rhs.raw as i128);
        if s > MAX_RAW as i128 {
            Real { raw: i64::MAX }
        } else if s < i64::MIN as i128 {
            Real { raw: i64::MIN }
        } else {
            Real { raw: s as i64 }
        }
    }

    /// The difference, kept in range.
    pub open spec fn spec_sub(self, rhs: Real) -> Real {
        Real { raw: saturate(self.raw - rhs.raw) }
    }

    /// The difference, kept in range.
    #[verifier::when_used_as_spec(spec_sub)]
    pub fn sub(self, rhs: Real) -> (r: Real)
        ensures
            r == self.spec_sub(rhs),
    {
        let s: i128 = (self.raw as i128) - (rhs.raw as i128);
        if s > MAX_RAW as i128 {
            Real { raw: i64::MAX }
        } else if s < i64::MIN as i128 {
            Real { raw: i64::MIN }
        } else {
            Real { raw: s as i64 }
        }
    }

    /// The number with the opposite sign, kept in range.
    pub open spec fn spec_neg(self) -> Real {
        Real { raw: saturate(-self.raw) }
    }

    /// The number with the opposite sign, kept in range.
    #[verifier::when_used_as_spec(spec_neg)]
    pub fn neg(self) -> (r: Real)
        ensures
            r == self.spec_neg(),
    {
        if self.raw == i64::MIN {
            Real { raw: i64::MAX }
        } else {
            Real { raw: -self.raw }
        }
    }

    /// The distance from zero, kept in range.
    pub open spec fn spec_abs(self) -> Real {
        Real { raw: saturate(magnitude(self.raw as int)) }
    }

    /// The distance from zero, kept in range.
    #[verifier::when_used_as_spec(spec_abs)]
    pub fn abs(self) -> (r: Real)
        ensures
            r == self.spec_abs(),
    {
        if self.raw == i64::MIN {
            Real { raw: i64::MAX }
        } else if self.raw < 0 {
            Real { raw: -self.raw }
        } else {
            self
        }
    }

    /// The product, rounded toward zero and kept in range.
    pub open spec fn spec_mul(self, rhs: Real) -> Real {
        Real {
            raw: saturate(
                signed(
                    (self.raw < 0) != (rhs.raw < 0),
                    (magnitude(self.raw as int) * magnitude(rhs.raw as int)) / (ONE_RAW as int),
                ),
            ),
        }
    }

    /// The product, rounded toward zero and kept in range.
    #[verifier::when_used_as_spec(spec_mul)]
    pub fn mul(self, rhs: Real) -> (r: Real)
        ensures
            r == self.spec_mul(rhs),
    {
        let a: u128 = magnitude_of(self.raw);
        let b: u128 = magnitude_of(rhs.raw);
        assert(a * b <= 0x8000_0000_0000_0000 * 0x8000_0000_0000_0000) by (nonlinear_arith)
            requires
                0 <= a <= 0x8000_0000_0000_0000,
                0 <= b <= 0x8000_0000_0000_0000,
        ;
        let m: u128 = (a * b) / 0x1_0000_0000;
        from_sign_magnitude((self.raw < 0) != (rhs.raw < 0), m)
    }

    /// The quotient, rounded toward zero and kept in range. A division by zero
    /// gives the end of the range on the side of the dividend, and zero for
    /// zero by zero.
    pub open spec fn spec_div(self, rhs: Real) -> Real {
        if rhs.raw == 0 {
            if self.raw > 0 {
                Real { raw: i64::MAX }
            } else if self.raw < 0 {
                Real { raw: i64::MIN }
            } else {
                Real { raw: 0 }
            }
        } else {
            Real {
                raw: saturate(
                    signed(
                        (self.raw < 0) != (rhs.raw < 0),
                        (magnitude(self.raw as int) * ONE_RAW) / magnitude(rhs.raw as int),
                    ),
                ),
            }
        }
    }

    /// The quotient, rounded toward zero and kept in range. A division by zero
    /// gives the end of the range on the side of the dividend, and zero for
    /// zero by zero.
    #[verifier::when_used_as_spec(spec_div)]
    pub fn div(self, rhs: Real) -> (r: Real)
        ensures
            r == self.spec_div(rhs),
    {
        if rhs.raw == 0 {
            if self.raw > 0 {
                Real { raw: i64::MAX }
            } else if self.raw < 0 {
                Real { raw: i64::MIN }
            } else {
                Real { raw: 0 }
            }
        } else {
            let a: u128 = magnitude_of(self.raw);
            let b: u128 = magnitude_of(rhs.raw);
            let m: u128 = (a * 0x1_0000_0000) / b;
            from_sign_magnitude((self.raw < 0) != (rhs.raw < 0), m)
        }
    }

    /// The square root, rounded down; zero for a number that is not positive.
    pub open spec fn spec_sqrt(self) -> Real {
        if self.raw <= 0 {
            Real { raw: 0 }
        } else {
            Real { raw: isqrt(self.raw * ONE_RAW) as i64 }
        }
    }

    /// The square root, rounded down; zero for a number that is not positive.
    #[verifier::when_used_as_spec(spec_sqrt)]
    pub fn sqrt(self) -> (r: Real)
        ensures
            r == self.spec_sqrt(),
            self.raw > 0 ==> is_isqrt(self.raw * ONE_RAW, r.raw as int),
    {
        if self.raw <= 0 {
            Real { raw: 0 }
        } else {
            let n: u128 = (self.raw as u128) * 0x1_0000_0000;
            let root: u128 = isqrt_wide(n);
            proof {
                lemma_sqrt_bounds(self);
            }
            Real { raw: root as i64 }
        }
    }

    /// The largest whole number that is not above this one.
    pub open spec fn spec_floor(self) -> Real {
        Real { raw: (self@ - self@ % (ONE_RAW as int)) as i64 }
    }

    /// The largest whole number that is not above this one.
    #[verifier::when_used_as_spec(spec_floor)]
    pub fn floor(self) -> (r: Real)
        ensures
            r == self.spec_floor(),
            r.raw <= self.raw,
    {
        let rem: i64 = self.raw % ONE_RAW;
        if rem < 0 {
            Real { raw: self.raw - rem - ONE_RAW }
        } else {
            Real { raw: self.raw - rem }
        }
    }

    /// The smallest whole number that is not below this one, kept in range.
    pub open spec fn spec_ceil(self) -> Real {
        if self@ % (ONE_RAW as int) == 0 {
            self
        } else {
            Real { raw: saturate(self@ - self@ % (ONE_RAW as int) + ONE_RAW) }
        }
    }

    /// The smallest whole number that is not below this one, kept in range.
    #[verifier::when_used_as_spec(spec_ceil)]
    pub fn ceil(self) -> (r: Real)
        ensures
            r == self.spec_ceil(),
    {
        let down = self.floor();
        if down.raw == self.raw {
            self
        } else {
            down.add(Real { raw: ONE_RAW })
        }
    }

    /// The smaller of the two.
    pub open spec fn spec_min(self, rhs: Real) -> Real {
        if self.raw < rhs.raw {
            self
        } else {
            rhs
        }
    }

    /// The smaller of the two.
    #[verifier::when_used_as_spec(spec_min)]
    pub fn min(self, rhs: Real) -> (r: Real)
        ensures
            r == self.spec_min(rhs),
    {
        if self.raw < rhs.raw {
            self
        } else {
            rhs
        }
    }

    /// The larger of the two.
    pub open spec fn spec_max(self, rhs: Real) -> Real {
        if self.raw > rhs.raw {
            self
        } else {
            rhs
        }
    }

    /// The larger of the two.
    #[verifier::when_used_as_spec(spec_max)]
    pub fn max(self, rhs: Real) -> (r: Real)
        ensures
            r == self.spec_max(rhs),
    {
        if self.raw > rhs.raw {
            self
        } else {
            rhs
        }
    }

    /// Whether this number is below `rhs`.
    pub fn lt(self, rhs: Real) -> (r: bool)
        ensures
            r == (self@ < rhs@),
    {
        self.raw < rhs.raw
    }

    /// Whether this number is not above `rhs`.
    pub fn le(self, rhs: Real) -> (r: bool)
        ensures
            r == (self@ <= rhs@),
    {
        self.raw <= rhs.raw
    }

    /// Whether this number is above `rhs`.
    pub fn gt(self, rhs: Real) -> (r: bool)
        ensures
            r == (self@ > rhs@),
    {
        self.raw > rhs.raw
    }

    /// Whether this number is not below `rhs`.
    pub fn ge(self, rhs: Real) -> (r: bool)
        ensures
            r == (self@ >= rhs@),
    {
        self.raw >= rhs.raw
    }
}

impl core::ops::Add for Real {
    type Output = Real;

    /// The sum as `Real::add` gives it.
    fn add(self, rhs: Real) -> (r: Real) {
        Real::add(self, rhs)
    }
}

impl vstd::std_specs::ops::AddSpecImpl for Real {
    open spec fn obeys_add_spec() -> bool {
        true
    }

    open spec fn add_req(self, rhs: Real) -> bool {
        true
    }

    open spec fn add_spec(self, rhs: Real) -> Real {
        self.spec_add(rhs)
    }
}

impl core::ops::Sub for Real {
    type Output = Real;

    /// The difference as `Real::sub` gives it.
    fn sub(self, rhs: Real) -> (r: Real) {
        Real::sub(self, rhs)
    }
}

impl vstd::std_specs::ops::SubSpecImpl for Real {
    open spec fn obeys_sub_spec() -> bool {
        true
    }

    open spec fn sub_req(self, rhs: Real) -> bool {
        true
    }

    open spec fn sub_spec(self, rhs: Real) -> Real {
        self.spec_sub(rhs)
    }
}

impl core::ops::Mul for Real {
    type Output = Real;

    /// The product as `Real::mul` gives it.
    fn mul(self, rhs: Real) -> (r: Real) {
        Real::mul(self, rhs)
    }
}

impl vstd::std_specs::ops::MulSpecImpl for Real {
    open spec fn obeys_mul_spec() -> bool {
        true
    }

    open spec fn mul_req(self, rhs: Real) -> bool {
        true
    }

    open spec fn mul_spec(self, rhs: Real) -> Real {
        self.spec_mul(rhs)
    }
}

impl core::ops::Div for Real {
    type Output = Real;

    /// The quotient as `Real::div` gives it.
    fn div(self, rhs: Real) -> (r: Real) {
        Real::div(self, rhs)
    }
}

impl vstd::std_specs::ops::DivSpecImpl for Real {
    open spec fn obeys_div_spec() -> bool {
        true
    }

    open spec fn div_req(self, rhs: Real) -> bool {
        true
    }

    open spec fn div_spec(self, rhs: Real) -> Real {
        self.spec_div(rhs)
    }
}

impl core::ops::Neg for Real {
    type Output = Real;

    /// The number with the opposite sign as `Real::neg` gives it.
    fn neg(self) -> (r: Real) {
        Real::neg(self)
    }
}

impl vstd::std_specs::ops::NegSpecImpl for Real {
    open spec fn obeys_neg_spec() -> bool {
        true
    }

    open spec fn neg_req(self) -> bool {
        true
    }

    open spec fn neg_spec(self) -> Real {
        self.spec_neg()
    }
}

} // verus!
