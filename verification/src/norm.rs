//! Bringing a vector to length one without losing precision.
//!
//! A short vector has few significant digits in fixed point, and dividing it
//! by its rounded length would carry that loss into the direction. So the
//! vector is first doubled until its widest component has 62 bits, which
//! changes nothing in its direction, and only then divided by its length.
use vstd::prelude::*;
use crate::scalar::ONE_RAW;
use crate::scalar::isqrt;
use crate::scalar::isqrt_wide;
use crate::scalar::magnitude;
use crate::scalar::magnitude_of;
use crate::scalar::signed;
use crate::scalar::lemma_isqrt_is_isqrt;

verus! {

/// The least magnitude that the widest component has after the doubling:
/// 2^61.
pub open spec fn wide() -> int {
    0x2000_0000_0000_0000
}

/// The power of two by which a vector whose widest component has the
/// magnitude `m` is multiplied: the least that brings `m` to `wide()`.
pub open spec fn lift(m: int) -> int
    decreases 2 * wide() - m,
{
    if m <= 0 || m >= wide() {
        1
    } else {
        2 * lift(2 * m)
    }
}

/// The largest of the magnitudes of three numbers.
pub open spec fn widest(x: int, y: int, z: int) -> int {
    let a = magnitude(x);
    let b = magnitude(y);
    let c = magnitude(z);
    if a >= b && a >= c {
        a
    } else if b >= c {
        b
    } else {
        c
    }
}

/// The length, rounded down, of the vector `(x, y, z)` after the doubling.
pub open spec fn lifted_length(x: int, y: int, z: int) -> int {
    let p = lift(widest(x, y, z));
    isqrt((x * p) * (x * p) + (y * p) * (y * p) + (z * p) * (z * p))
}

/// The raw value of the component `c` of the vector `(x, y, z)` brought to
/// length one: `c` divided by the vector's length, rounded toward zero; zero
/// for the zero vector.
pub open spec fn unit_part(c: int, x: int, y: int, z: int) -> int {
    if widest(x, y, z) == 0 {
        0
    } else {
        signed(
            c < 0,
            (magnitude(c) * lift(widest(x, y, z)) * ONE_RAW) / lifted_length(x, y, z),
        )
    }
}

/// The doubling brings the widest component to between 2^61 and 2^63.
pub proof fn lemma_lift(m: int)
    requires
        0 < m <= 0x8000_0000_0000_0000,
    ensures
        lift(m) >= 1,
        wide() <= m * lift(m) <= 0x8000_0000_0000_0000,
    decreases 2 * wide() - m,
{
    if m < wide() {
        lemma_lift(2 * m);
        assert(m * (2 * lift(2 * m)) == (2 * m) * lift(2 * m)) by (nonlinear_arith);
    }
}

/// The raw values of the three components of the vector `(x, y, z)` brought
/// to length one.
pub(crate) fn unit_parts(x: i64, y: i64, z: i64) -> (r: (i64, i64, i64))
    ensures
        r.0 == unit_part(x as int, x as int, y as int, z as int),
        r.1 == unit_part(y as int, x as int, y as int, z as int),
        r.2 == unit_part(z as int, x as int, y as int, z as int),
{
    let ax = magnitude_of(x);
    let ay = magnitude_of(y);
    let az = magnitude_of(z);
    let m = if ax >= ay && ax >= az {
        ax
    } else if ay >= az {
        ay
    } else {
        az
    };
    if m == 0 {
        return (0, 0, 0);
    }
    let mut p: u128 = 1;
    let mut w: u128 = m;
    while w < 0x2000_0000_0000_0000
        invariant
            0 < m <= 0x8000_0000_0000_0000,
            w == m * p,
            p >= 1,
            m <= w <= 0x8000_0000_0000_0000,
            lift(m as int) == p * lift(w as int),
        decreases 0x4000_0000_0000_0000 - w,
    {
        proof {
            assert(m * (p * 2) == (m * p) * 2) by (nonlinear_arith);
            assert(p * (2 * lift(2 * w)) == (p * 2) * lift(2 * w)) by (nonlinear_arith);
            assert(p <= w) by (nonlinear_arith)
                requires
                    w == m * p,
                    m >= 1,
                    p >= 1,
            ;
        }
        w = w * 2;
        p = p * 2;
    }
    proof {
        assert(lift(w as int) == 1);
        assert(p * 1 == p) by (nonlinear_arith);
        assert(ax * p <= w && ay * p <= w && az * p <= w) by (nonlinear_arith)
            requires
                w == m * p,
                ax <= m,
                ay <= m,
                az <= m,
                p >= 1,
        ;
    }
    let bx = ax * p;
    let by = ay * p;
    let bz = az * p;
    proof {
        let top = 0x8000_0000_0000_0000int;
        assert(bx * bx <= top * top && by * by <= top * top && bz * bz <= top * top)
            by (nonlinear_arith)
            requires
                0 <= bx <= top,
                0 <= by <= top,
                0 <= bz <= top,
        ;
        assert(top * top == 0x4000_0000_0000_0000_0000_0000_0000_0000int) by (nonlinear_arith)
            requires
                top == 0x8000_0000_0000_0000int,
        ;
    }
    let sum = bx * bx + by * by + bz * bz;
    let length = isqrt_wide(sum);
    proof {
        let xs = x as int;
        let ys = y as int;
        let zs = z as int;
        let ps = p as int;
        assert((xs * ps) * (xs * ps) == bx * bx) by (nonlinear_arith)
            requires
                bx == magnitude(xs) * ps,
        ;
        assert((ys * ps) * (ys * ps) == by * by) by (nonlinear_arith)
            requires
                by == magnitude(ys) * ps,
        ;
        assert((zs * ps) * (zs * ps) == bz * bz) by (nonlinear_arith)
            requires
                bz == magnitude(zs) * ps,
        ;
        assert(length == lifted_length(xs, ys, zs));
        assert(length >= w && length >= bx && length >= by && length >= bz) by (nonlinear_arith)
            requires
                sum == bx * bx + by * by + bz * bz,
                length * length <= sum < (length + 1) * (length + 1),
                0 <= bx <= w,
                0 <= by <= w,
                0 <= bz <= w,
                bx == w || by == w || bz == w,
                length >= 0,
        ;
    }
    let cx = part_of(x < 0, bx, length);
    let cy = part_of(y < 0, by, length);
    let cz = part_of(z < 0, bz, length);
    proof {
        assert(ax * p * ONE_RAW == bx * 0x1_0000_0000);
        assert(ay * p * ONE_RAW == by * 0x1_0000_0000);
        assert(az * p * ONE_RAW == bz * 0x1_0000_0000);
    }
    (cx, cy, cz)
}

/// The share of `length` that `part` is, as a raw value with the sign given.
fn part_of(negative: bool, part: u128, length: u128) -> (r: i64)
    requires
        part <= length <= 0xffff_ffff_ffff_ffff,
        length > 0,
    ensures
        r == signed(negative, (part * 0x1_0000_0000) / (length as int)),
        -0x1_0000_0000 <= r <= 0x1_0000_0000,
{
    let share = (part * 0x1_0000_0000) / length;
    assert(share <= 0x1_0000_0000) by (nonlinear_arith)
        requires
            share == (part * 0x1_0000_0000) / (length as int),
            0 <= part <= length,
            length > 0,
    ;
    if negative {
        -(share as i64)
    } else {
        share as i64
    }
}

/// The squared length, as a raw value, of the vector with the raw components
/// `a`, `b` and `c`, each square rounded down.
pub open spec fn squared_length(a: int, b: int, c: int) -> int {
    (a * a) / (ONE_RAW as int) + (b * b) / (ONE_RAW as int) + (c * c) / (ONE_RAW as int)
}

/// What is known of the share `a` of `length` that `part` is, rounded down:
/// its square times the square of the length is at most the square of the
/// part, scaled, which in turn is below the same with `a + 1`.
proof fn lemma_share(part: int, length: int, a: int)
    requires
        0 <= part <= length,
        length > 0,
        a == (part * 0x1_0000_0000) / length,
    ensures
        0 <= a <= 0x1_0000_0000,
        (a * a) * (length * length) <= (part * part) * 0x1_0000_0000_0000_0000,
        (part * part) * 0x1_0000_0000_0000_0000 < ((a + 1) * (a + 1)) * (length * length),
{
    let e = 0x1_0000_0000int;
    let n = part * e;
    vstd::arithmetic::div_mod::lemma_fundamental_div_mod(n, length);
    vstd::arithmetic::div_mod::lemma_mod_bound(n, length);
    assert(a * length <= n < (a + 1) * length) by (nonlinear_arith)
        requires
            n == length * a + n % length,
            0 <= n % length < length,
    ;
    assert(0 <= a <= e) by (nonlinear_arith)
        requires
            a * length <= n,
            n < (a + 1) * length,
            n == part * e,
            0 <= part <= length,
            length > 0,
            e == 0x1_0000_0000int,
    ;
    assert((a * a) * (length * length) <= n * n) by (nonlinear_arith)
        requires
            0 <= a * length <= n,
    ;
    assert(n * n < ((a + 1) * (a + 1)) * (length * length)) by (nonlinear_arith)
        requires
            0 <= n < (a + 1) * length,
    ;
    assert(n * n == (part * part) * 0x1_0000_0000_0000_0000) by (nonlinear_arith)
        requires
            n == part * e,
            e == 0x1_0000_0000int,
    ;
}

/// A square divided by one, rounded down, times one is the square less a
/// rest below one.
proof fn lemma_square_share(a: int)
    requires
        0 <= a,
    ensures
        a * a - 0x1_0000_0000 < ((a * a) / 0x1_0000_0000) * 0x1_0000_0000 <= a * a,
        0 <= (a * a) / 0x1_0000_0000,
{
    assert(a * a >= 0) by (nonlinear_arith)
        requires
            a >= 0,
    ;
}

/// A vector that is not zero, brought to length one, has the length one
/// within nine units: its squared length, as the components' rounded
/// squares give it, is at most one and at least one less nine units.
pub proof fn lemma_unit_parts(x: int, y: int, z: int)
    requires
        magnitude(x) <= 0x8000_0000_0000_0000,
        magnitude(y) <= 0x8000_0000_0000_0000,
        magnitude(z) <= 0x8000_0000_0000_0000,
        widest(x, y, z) > 0,
    ensures
        magnitude(unit_part(x, x, y, z)) <= ONE_RAW,
        magnitude(unit_part(y, x, y, z)) <= ONE_RAW,
        magnitude(unit_part(z, x, y, z)) <= ONE_RAW,
        ONE_RAW - 9 <= squared_length(
            unit_part(x, x, y, z),
            unit_part(y, x, y, z),
            unit_part(z, x, y, z),
        ) <= ONE_RAW,
{
    let e = 0x1_0000_0000int;
    let ee = 0x1_0000_0000_0000_0000int;
    let m = widest(x, y, z);
    let p = lift(m);
    lemma_lift(m);
    let w = m * p;
    let bx = magnitude(x) * p;
    let by = magnitude(y) * p;
    let bz = magnitude(z) * p;
    assert(0 <= bx <= w && 0 <= by <= w && 0 <= bz <= w) by (nonlinear_arith)
        requires
            bx == magnitude(x) * p,
            by == magnitude(y) * p,
            bz == magnitude(z) * p,
            w == m * p,
            0 <= magnitude(x) <= m,
            0 <= magnitude(y) <= m,
            0 <= magnitude(z) <= m,
            p >= 1,
    ;
    assert(bx == w || by == w || bz == w);
    let sum = bx * bx + by * by + bz * bz;
    assert((x * p) * (x * p) == bx * bx) by (nonlinear_arith)
        requires
            bx == magnitude(x) * p,
    ;
    assert((y * p) * (y * p) == by * by) by (nonlinear_arith)
        requires
            by == magnitude(y) * p,
    ;
    assert((z * p) * (z * p) == bz * bz) by (nonlinear_arith)
        requires
            bz == magnitude(z) * p,
    ;
    assert(sum >= 0) by (nonlinear_arith)
        requires
            sum == bx * bx + by * by + bz * bz,
    ;
    let length = lifted_length(x, y, z);
    assert(length == isqrt(sum));
    lemma_isqrt_is_isqrt(sum);
    assert(length >= w && length >= bx && length >= by && length >= bz) by (nonlinear_arith)
        requires
            sum == bx * bx + by * by + bz * bz,
            length * length <= sum < (length + 1) * (length + 1),
            0 <= bx <= w,
            0 <= by <= w,
            0 <= bz <= w,
            bx == w || by == w || bz == w,
            length >= 0,
    ;
    let a = (bx * e) / length;
    let b = (by * e) / length;
    let c = (bz * e) / length;
    assert(magnitude(x) * p * ONE_RAW == bx * e);
    assert(magnitude(y) * p * ONE_RAW == by * e);
    assert(magnitude(z) * p * ONE_RAW == bz * e);
    assert(magnitude(unit_part(x, x, y, z)) == a);
    assert(magnitude(unit_part(y, x, y, z)) == b);
    assert(magnitude(unit_part(z, x, y, z)) == c);
    lemma_share(bx, length, a);
    lemma_share(by, length, b);
    lemma_share(bz, length, c);
    let ll = length * length;
    let squares = a * a + b * b + c * c;
    let next = (a + 1) * (a + 1) + (b + 1) * (b + 1) + (c + 1) * (c + 1);
    assert(squares * ll <= sum * ee) by (nonlinear_arith)
        requires
            squares == a * a + b * b + c * c,
            sum == bx * bx + by * by + bz * bz,
            (a * a) * ll <= (bx * bx) * ee,
            (b * b) * ll <= (by * by) * ee,
            (c * c) * ll <= (bz * bz) * ee,
    ;
    assert(sum * ee < next * ll) by (nonlinear_arith)
        requires
            next == (a + 1) * (a + 1) + (b + 1) * (b + 1) + (c + 1) * (c + 1),
            sum == bx * bx + by * by + bz * bz,
            (bx * bx) * ee < ((a + 1) * (a + 1)) * ll,
            (by * by) * ee < ((b + 1) * (b + 1)) * ll,
            (bz * bz) * ee < ((c + 1) * (c + 1)) * ll,
    ;
    // from above: the squares are at most one and a little
    assert(squares <= ee + 24) by (nonlinear_arith)
        requires
            squares * ll <= sum * ee,
            sum < (length + 1) * (length + 1),
            ll == length * length,
            length >= 0x2000_0000_0000_0000,
            ee == 0x1_0000_0000_0000_0000int,
            squares >= 0,
    ;
    assert(ll > 0) by (nonlinear_arith)
        requires
            ll == length * length,
            length >= 0x2000_0000_0000_0000,
    ;
    // from below: the squares are at least one less a little
    assert(next > ee) by (nonlinear_arith)
        requires
            sum * ee < next * ll,
            ll <= sum,
            ll > 0,
            ee > 0,
    ;
    assert(next == squares + 2 * (a + b + c) + 3) by (nonlinear_arith)
        requires
            next == (a + 1) * (a + 1) + (b + 1) * (b + 1) + (c + 1) * (c + 1),
            squares == a * a + b * b + c * c,
    ;
    lemma_square_share(a);
    lemma_square_share(b);
    lemma_square_share(c);
    let s = (a * a) / e + (b * b) / e + (c * c) / e;
    assert(s * e <= squares && squares - 3 * e < s * e) by (nonlinear_arith)
        requires
            s == (a * a) / e + (b * b) / e + (c * c) / e,
            squares == a * a + b * b + c * c,
            a * a - e < ((a * a) / e) * e <= a * a,
            b * b - e < ((b * b) / e) * e <= b * b,
            c * c - e < ((c * c) / e) * e <= c * c,
    ;
    assert(e * e == ee) by (nonlinear_arith)
        requires
            e == 0x1_0000_0000int,
            ee == 0x1_0000_0000_0000_0000int,
    ;
    assert(s <= e) by (nonlinear_arith)
        requires
            s * e <= e * e + 24,
            e == 0x1_0000_0000int,
    ;
    assert(s * e > e * e - 9 * e - 3);
    assert(e - 9 <= s) by (nonlinear_arith)
        requires
            s * e > e * e - 9 * e - 3,
            e == 0x1_0000_0000int,
    ;
    let ux = unit_part(x, x, y, z);
    let uy = unit_part(y, x, y, z);
    let uz = unit_part(z, x, y, z);
    assert(ux * ux == a * a) by (nonlinear_arith)
        requires
            ux == a || ux == -a,
    ;
    assert(uy * uy == b * b) by (nonlinear_arith)
        requires
            uy == b || uy == -b,
    ;
    assert(uz * uz == c * c) by (nonlinear_arith)
        requires
            uz == c || uz == -c,
    ;
}

} // verus!
