//! Integer geometry kernel: division guards, truncating division and
//! Euclidean remainder helpers, an integer square root, Euclidean distance,
//! and fixed-point degree-indexed trigonometry.
use vstd::prelude::*;

verus! {

/// Fixed-point scale of the trigonometric functions: `sine` and `cosine`
/// return the real value multiplied by this constant.
pub const TRIG_ONE: i32 = 1000;

/// Substitutes `1` for an exact-zero divisor; the sole division-by-zero
/// guard used by every slope or step computation in the renderer.
pub fn one_if_none(n: i64) -> (r: i64)
    ensures
        n == 0 ==> r == 1,
        n != 0 ==> r == n,
{
    if n == 0 {
        1
    } else {
        n
    }
}

/// Clamps a grid scale from below so a map unit is never smaller than a pixel.
pub fn no_less_than_one(n: i32) -> (r: i32)
    ensures
        n <= 1 ==> r == 1,
        n > 1 ==> r == n,
{
    if n <= 1 {
        1
    } else {
        n
    }
}

/// True exactly when `x` is divisible by two.
pub fn is_even(x: i32) -> (r: bool)
    ensures
        r == (x as int % 2 == 0),
{
    let t = x % 2;
    proof {
        if x < 0 {
            lemma_trunc_rem_to_euclid(x as int, 2);
        }
    }
    t == 0
}

/// Relates Rust's truncating remainder, written here as
/// `-((-a) % m)` for negative `a`, to the Euclidean remainder `a % m`.
pub proof fn lemma_trunc_rem_to_euclid(a: int, m: int)
    requires
        m > 0,
        a < 0,
    ensures
        (-a) % m == 0 ==> a % m == 0,
        (-a) % m != 0 ==> a % m == m - (-a) % m,
{
    let p = (-a) % m;
    let q = (-a) / m;
    vstd::arithmetic::div_mod::lemma_fundamental_div_mod(-a, m);
    vstd::arithmetic::div_mod::lemma_mod_bound(-a, m);
    assert(a == (-q) * m - p) by (nonlinear_arith)
        requires
            -a == q * m + p,
    ;
    if p == 0 {
        vstd::arithmetic::div_mod::lemma_fundamental_div_mod_converse_mod(a, m, -q, 0);
    } else {
        assert(a == (-q - 1) * m + (m - p)) by (nonlinear_arith)
            requires
                a == (-q) * m - p,
        ;
        vstd::arithmetic::div_mod::lemma_fundamental_div_mod_converse_mod(a, m, -q - 1, m - p);
    }
}

/// Truncating (round-toward-zero) division, the rounding used by every
/// interpolation step in the renderer.
pub open spec fn tdiv(a: int, b: int) -> int
    recommends
        b != 0,
{
    if a >= 0 {
        a / b
    } else {
        -((-a) / b)
    }
}

/// Truncating division with a divisor of either sign.
pub open spec fn tdivs(a: int, b: int) -> int
    recommends
        b != 0,
{
    if b > 0 {
        tdiv(a, b)
    } else {
        -tdiv(a, -b)
    }
}

/// Truncating division on machine integers with a nonzero divisor of
/// either sign.
pub fn div_trunc_any(a: i64, b: i64) -> (r: i64)
    requires
        b != 0,
        b > i64::MIN,
        a > i64::MIN,
    ensures
        r == tdivs(a as int, b as int),
{
    if b > 0 {
        a / b
    } else {
        let q = if a >= 0 {
            a / (-b)
        } else {
            -((-a) / (-b))
        };
        -q
    }
}

/// Truncating division by a divisor of magnitude at least one never grows
/// the magnitude of the dividend.
pub proof fn lemma_tdivs_bounds(a: int, b: int)
    requires
        b != 0,
    ensures
        a >= 0 ==> -a <= tdivs(a, b) <= a,
        a < 0 ==> a <= tdivs(a, b) <= -a,
{
    if b > 0 {
        lemma_tdiv_bounds(a, b);
    } else {
        lemma_tdiv_bounds(a, -b);
    }
}

/// Truncating division on 128-bit integers.
pub fn div_trunc128(a: i128, b: i128) -> (r: i128)
    requires
        b > 0,
        a > i128::MIN,
    ensures
        r == tdiv(a as int, b as int),
{
    a / b
}

/// Truncating division on machine integers, matching `tdiv`.
pub fn div_trunc(a: i64, b: i64) -> (r: i64)
    requires
        b > 0,
        a > i64::MIN,
    ensures
        r == tdiv(a as int, b as int),
{
    a / b
}

/// Truncating division never grows the magnitude of the dividend and
/// never flips its sign.
pub proof fn lemma_tdiv_bounds(a: int, b: int)
    requires
        b >= 1,
    ensures
        a >= 0 ==> 0 <= tdiv(a, b) <= a,
        a < 0 ==> a <= tdiv(a, b) <= 0,
{
    if a >= 0 {
        vstd::arithmetic::div_mod::lemma_div_pos_is_pos(a, b);
        vstd::arithmetic::div_mod::lemma_div_nonincreasing(a, b);
    } else {
        vstd::arithmetic::div_mod::lemma_div_pos_is_pos(-a, b);
        vstd::arithmetic::div_mod::lemma_div_nonincreasing(-a, b);
    }
}

/// A truncated product fraction `n * d / m` with `0 <= n <= m` stays
/// within `[0, d]` or `[d, 0]` according to the sign of `d`.
pub proof fn lemma_tdiv_mul_bound(n: int, d: int, m: int)
    requires
        0 <= n <= m,
        m >= 1,
    ensures
        d >= 0 ==> 0 <= tdiv(n * d, m) <= d,
        d < 0 ==> d <= tdiv(n * d, m) <= 0,
{
    if d >= 0 {
        assert(0 <= n * d && n * d <= m * d) by (nonlinear_arith)
            requires
                0 <= n <= m,
                d >= 0,
        ;
        vstd::arithmetic::div_mod::lemma_div_pos_is_pos(n * d, m);
        vstd::arithmetic::div_mod::lemma_div_is_ordered(n * d, m * d, m);
        vstd::arithmetic::div_mod::lemma_div_multiples_vanish(d, m);
    } else {
        assert(0 <= n * (-d) && n * (-d) <= m * (-d) && -(n * d) == n * (-d)) by (nonlinear_arith)
            requires
                0 <= n <= m,
                d < 0,
        ;
        vstd::arithmetic::div_mod::lemma_div_pos_is_pos(n * (-d), m);
        vstd::arithmetic::div_mod::lemma_div_is_ordered(n * (-d), m * (-d), m);
        vstd::arithmetic::div_mod::lemma_div_multiples_vanish(-d, m);
    }
}

/// Euclidean remainder: the result is always in `[0, m)`.
pub fn rem_euc(a: i64, m: i64) -> (r: i64)
    requires
        m > 0,
        a > i64::MIN,
    ensures
        r == a as int % m as int,
        0 <= r < m,
{
    proof {
        vstd::arithmetic::div_mod::lemma_mod_bound(a as int, m as int);
        if a < 0 {
            lemma_trunc_rem_to_euclid(a as int, m as int);
            vstd::arithmetic::div_mod::lemma_mod_bound(-(a as int), m as int);
        }
    }
    let t = a % m;
    if t < 0 {
        t + m
    } else {
        t
    }
}

/// Holds when `r` is the integer square root of `d`.
pub open spec fn is_sqrt(d: int, r: int) -> bool {
    0 <= r && r * r <= d && d < (r + 1) * (r + 1)
}

/// The integer square root as a mathematical function: the largest `r`
/// with `r * r <= d`.
pub open spec fn sqrt_floor(d: int) -> int
    decreases d,
{
    if d <= 0 {
        0
    } else {
        let r = sqrt_floor(d - 1);
        if (r + 1) * (r + 1) <= d {
            r + 1
        } else {
            r
        }
    }
}

/// `sqrt_floor` satisfies the square-root bracketing on nonnegative input.
pub proof fn lemma_sqrt_floor_is_sqrt(d: int)
    requires
        d >= 0,
    ensures
        is_sqrt(d, sqrt_floor(d)),
    decreases d,
{
    if d == 0 {
        assert(is_sqrt(0, 0)) by (nonlinear_arith);
    } else {
        lemma_sqrt_floor_is_sqrt(d - 1);
        let r = sqrt_floor(d - 1);
        if (r + 1) * (r + 1) <= d {
            assert(is_sqrt(d, r + 1)) by (nonlinear_arith)
                requires
                    is_sqrt(d - 1, r),
                    (r + 1) * (r + 1) <= d,
            ;
        } else {
            assert(is_sqrt(d, r)) by (nonlinear_arith)
                requires
                    is_sqrt(d - 1, r),
                    (r + 1) * (r + 1) > d,
            ;
        }
    }
}

/// Integer square root by bisection.
pub fn isqrt64(d: u64) -> (r: u64)
    ensures
        is_sqrt(d as int, r as int),
{
    let mut lo: u64 = 0;
    let mut hi: u64 = 0x1_0000_0000;
    proof {
        assert(0x1_0000_0000int * 0x1_0000_0000int > u64::MAX as int) by (nonlinear_arith);
    }
    while lo + 1 < hi
        invariant
            lo < hi <= 0x1_0000_0000,
            lo * lo <= d,
            d < hi * hi,
        decreases hi - lo,
    {
        let mid = lo + (hi - lo) / 2;
        proof {
            assert(mid as int * mid as int <= 0x1_0000_0000int * 0x1_0000_0000int)
                by (nonlinear_arith)
                requires
                    0 <= mid <= 0x1_0000_0000int,
            ;
            assert(0x1_0000_0000int * 0x1_0000_0000int < u128::MAX as int) by (nonlinear_arith);
        }
        let sq: u128 = (mid as u128) * (mid as u128);
        if sq <= d as u128 {
            lo = mid;
        } else {
            hi = mid;
        }
    }
    proof {
        assert(hi == lo + 1);
    }
    lo
}

/// The squared Euclidean distance between two points.
pub open spec fn dist_sq(x1: int, y1: int, x2: int, y2: int) -> int {
    (x2 - x1) * (x2 - x1) + (y2 - y1) * (y2 - y1)
}

/// Bound on coordinates fed to `distance`, far beyond any screen or map value.
pub const COORD_LIMIT: i64 = 1_000_000_000;

/// Euclidean distance between two points, rounded down to an integer.
/// It is never negative, and zero exactly when the points coincide.
pub fn distance(x1: i64, y1: i64, x2: i64, y2: i64) -> (r: i64)
    requires
        -COORD_LIMIT <= x1 <= COORD_LIMIT,
        -COORD_LIMIT <= y1 <= COORD_LIMIT,
        -COORD_LIMIT <= x2 <= COORD_LIMIT,
        -COORD_LIMIT <= y2 <= COORD_LIMIT,
    ensures
        r == sqrt_floor(dist_sq(x1 as int, y1 as int, x2 as int, y2 as int)),
        is_sqrt(dist_sq(x1 as int, y1 as int, x2 as int, y2 as int), r as int),
        r >= 0,
        (r == 0) <==> (x1 == x2 && y1 == y2),
{
    let dx = x2 - x1;
    let dy = y2 - y1;
    proof {
        assert(0 <= dx * dx && dx * dx <= 4_000_000_000_000_000_000 && 0 <= dy * dy && dy * dy
            <= 4_000_000_000_000_000_000) by (nonlinear_arith)
            requires
                -2_000_000_000 <= dx <= 2_000_000_000,
                -2_000_000_000 <= dy <= 2_000_000_000,
        ;
    }
    let sq_i: i64 = dx * dx + dy * dy;
    let sq: u64 = sq_i as u64;
    let root = isqrt64(sq);
    proof {
        assert(root as int <= 3_000_000_000int) by (nonlinear_arith)
            requires
                is_sqrt(sq as int, root as int),
                sq as int <= 8_000_000_000_000_000_000int,
        ;
    }
    let r = root as i64;
    proof {
        assert(sq as int == dx * dx + dy * dy);
        lemma_sqrt_floor_is_sqrt(sq as int);
        lemma_sqrt_unique(sq as int, root as int, sqrt_floor(sq as int));
        if r == 0 {
            assert((root as int + 1) * (root as int + 1) == 1) by (nonlinear_arith)
                requires
                    root as int == 0,
            ;
            assert(dx == 0 && dy == 0) by (nonlinear_arith)
                requires
                    dx * dx + dy * dy < 1,
            ;
        }
        if dx == 0 && dy == 0 {
            assert(dx * dx == 0 && dy * dy == 0) by (nonlinear_arith)
                requires
                    dx == 0 && dy == 0,
            ;
            assert(is_sqrt(0, 0)) by (nonlinear_arith);
            lemma_sqrt_unique(0, r as int, 0);
        }
    }
    r
}

/// The integer square root is unique: two roots of the same value are equal.
pub proof fn lemma_sqrt_unique(d: int, r1: int, r2: int)
    requires
        is_sqrt(d, r1),
        is_sqrt(d, r2),
    ensures
        r1 == r2,
{
    assert(r1 == r2) by (nonlinear_arith)
        requires
            0 <= r1 && r1 * r1 <= d && d < (r1 + 1) * (r1 + 1),
            0 <= r2 && r2 * r2 <= d && d < (r2 + 1) * (r2 + 1),
    ;
}

/// Distance is symmetric: swapping the two points leaves both the squared
/// distance and the rounded Euclidean distance unchanged.
pub proof fn lemma_distance_symmetric(x1: int, y1: int, x2: int, y2: int)
    ensures
        dist_sq(x1, y1, x2, y2) == dist_sq(x2, y2, x1, y1),
        sqrt_floor(dist_sq(x1, y1, x2, y2)) == sqrt_floor(dist_sq(x2, y2, x1, y1)),
{
    assert(dist_sq(x1, y1, x2, y2) == dist_sq(x2, y2, x1, y1)) by (nonlinear_arith);
}

/// Distance from a point to itself is zero.
pub proof fn lemma_distance_zero(x: int, y: int)
    ensures
        dist_sq(x, y, x, y) == 0,
        sqrt_floor(dist_sq(x, y, x, y)) == 0,
{
}

/// Bhaskara's rational sine approximation in milli-units, for degrees
/// in `[0, 180]`.
pub open spec fn sine_half(d: int) -> int {
    (4000 * d * (180 - d)) / (40500 - d * (180 - d))
}

/// Fixed-point sine of an integer degree, in milli-units.
pub open spec fn spec_sine(deg: int) -> int {
    let d = deg % 360;
    if d <= 180 {
        sine_half(d)
    } else {
        -sine_half(d - 180)
    }
}

/// Fixed-point cosine of an integer degree, in milli-units.
pub open spec fn spec_cosine(deg: int) -> int {
    spec_sine(deg + 90)
}

/// `sine_half` stays within `[0, 1000]` on `[0, 180]`.
proof fn lemma_sine_half_bounds(d: int)
    requires
        0 <= d <= 180,
    ensures
        0 <= sine_half(d) <= 1000,
{
    let h = d * (180 - d);
    assert(0 <= h <= 8100) by (nonlinear_arith)
        requires
            0 <= d <= 180,
            h == d * (180 - d),
    ;
    assert(4000 * d * (180 - d) == 4000 * h) by (nonlinear_arith)
        requires
            h == d * (180 - d),
    ;
    vstd::arithmetic::div_mod::lemma_div_pos_is_pos(4000 * h, 40500 - h);
    assert(4000 * h <= 1000 * (40500 - h));
    vstd::arithmetic::div_mod::lemma_div_is_ordered(4000 * h, 1000 * (40500 - h), 40500 - h);
    vstd::arithmetic::div_mod::lemma_div_multiples_vanish(1000, 40500 - h);
    assert((40500 - h) * 1000 == 1000 * (40500 - h)) by (nonlinear_arith);
}

/// The Euclidean remainder of any integer degree by 360, as executable code
/// computes it from Rust's truncating `%`.
fn degree_mod_360(num: i32) -> (d: i32)
    ensures
        d == num as int % 360,
        0 <= d < 360,
{
    proof {
        vstd::arithmetic::div_mod::lemma_mod_bound(num as int, 360);
        if num < 0 {
            lemma_trunc_rem_to_euclid(num as int, 360);
            vstd::arithmetic::div_mod::lemma_mod_bound(-(num as int), 360);
        }
    }
    let t = num % 360;
    if t < 0 {
        t + 360
    } else {
        t
    }
}

/// Sine of an angle in degrees, scaled by `TRIG_ONE`; accepts any integer
/// degree, reducing it modulo 360.
pub fn sine(num: i32) -> (r: i32)
    ensures
        r == spec_sine(num as int),
        -TRIG_ONE <= r <= TRIG_ONE,
{
    let d = degree_mod_360(num);
    if d <= 180 {
        proof {
            lemma_sine_half_bounds(d as int);
            assert(0 <= d * (180 - d) <= 8100) by (nonlinear_arith)
                requires
                    0 <= d <= 180,
            ;
        }
        let h = d * (180 - d);
        proof {
            assert(4000 * (d as int) * (180 - d as int) == 4000 * (h as int)) by (nonlinear_arith)
                requires
                    h as int == d as int * (180 - d as int),
            ;
        }
        (4000 * h) / (40500 - h)
    } else {
        proof {
            lemma_sine_half_bounds(d as int - 180);
            assert(0 <= (d - 180) * (360 - d) <= 8100) by (nonlinear_arith)
                requires
                    180 < d < 360,
            ;
        }
        let h = (d - 180) * (360 - d);
        proof {
            assert(4000 * (d as int - 180) * (180 - (d as int - 180)) == 4000 * (h as int))
                by (nonlinear_arith)
                requires
                    h as int == (d as int - 180) * (360 - d as int),
            ;
        }
        -((4000 * h) / (40500 - h))
    }
}

/// Cosine of an angle in degrees, scaled by `TRIG_ONE`; accepts any integer
/// degree, reducing it modulo 360.
pub fn cosine(num: i32) -> (r: i32)
    ensures
        r == spec_cosine(num as int),
        -TRIG_ONE <= r <= TRIG_ONE,
{
    let d = degree_mod_360(num);
    proof {
        vstd::arithmetic::div_mod::lemma_small_mod(90nat, 360nat);
        vstd::arithmetic::div_mod::lemma_add_mod_noop(num as int, 90, 360);
        assert((d as int + 90) % 360 == (num as int + 90) % 360);
        assert(spec_sine(d as int + 90) == spec_sine(num as int + 90));
    }
    sine(d + 90)
}

} // verus!
