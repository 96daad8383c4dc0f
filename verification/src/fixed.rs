//! Fixed-point scalar arithmetic.
//!
//! Every coordinate, distance and colour channel in the renderer is an `i64`
//! count of `1/SCALE` units. The operations here compute through `i128`
//! intermediates, round toward zero (as the stored values are signed), and
//! clamp results to `[-VMAX, VMAX]` so that they are total over their inputs.

use vstd::math::abs;
use vstd::prelude::*;

verus! {

/// Number of raw steps in one unit of scene space.
pub const SCALE: i64 = 65536;

/// Largest raw magnitude a scalar result may reach (2^62): results are
/// clamped here, which keeps every `i128` intermediate of a later operation
/// exactly representable.
pub const VMAX: i64 = 0x4000_0000_0000_0000;

/// Raw magnitude bound on triangle vertices and bounding-box corners (2^31,
/// that is 32768 scene units).
pub const GEOM_MAX: i64 = 0x8000_0000;

/// Raw magnitude bound on ray origins and directions (2^43). Hit points are
/// clamped to this bound, so scattered rays stay within it.
pub const RAY_MAX: i64 = 0x800_0000_0000;

/// Forward-hit threshold: a triangle intersection counts only when its travel
/// distance exceeds EPSILON raw steps (2^-16 of a unit). This rejects
/// self-intersection of a scatter ray at its own origin.
pub const EPSILON: i64 = 1;

/// Division truncated toward zero. The spec-level `/` of Verus is Euclidean,
/// which differs on negative operands; the executable code rounds all scaling
/// toward zero, and this function is the statement of that rounding.
pub open spec fn tdiv(a: int, b: int) -> int
    recommends
        b != 0,
{
    if (a >= 0) == (b >= 0) {
        (abs(a) / abs(b)) as int
    } else {
        -((abs(a) / abs(b)) as int)
    }
}

/// `x` clamped to `[-m, m]`.
pub open spec fn clamp_to(x: int, m: int) -> int {
    if x > m {
        m
    } else if x < -m {
        -m
    } else {
        x
    }
}

/// Raw value of the sum of two fixed-point scalars.
pub open spec fn fx_add(a: int, b: int) -> int {
    clamp_to(a + b, VMAX as int)
}

/// Raw value of the difference of two fixed-point scalars.
pub open spec fn fx_sub(a: int, b: int) -> int {
    clamp_to(a - b, VMAX as int)
}

/// Raw value of the product of two fixed-point scalars.
pub open spec fn fx_mul(a: int, b: int) -> int {
    clamp_to(tdiv(a * b, SCALE as int), VMAX as int)
}

/// Raw value of the quotient of two fixed-point scalars.
pub open spec fn fx_div(a: int, b: int) -> int
    recommends
        b != 0,
{
    clamp_to(tdiv(a * SCALE, b), VMAX as int)
}

/// Integer square root: the largest `r` with `r * r <= n`.
pub open spec fn sqrt_nat(n: nat) -> nat
    decreases n,
{
    if n == 0 {
        0
    } else {
        let r = sqrt_nat((n - 1) as nat);
        if (r + 1) * (r + 1) <= n {
            r + 1
        } else {
            r
        }
    }
}

/// Raw value of the square root of a nonnegative fixed-point scalar.
pub open spec fn fx_sqrt(a: int) -> int {
    if a >= 0 {
        sqrt_nat((a * SCALE) as nat) as int
    } else {
        0
    }
}

/// `|a * b| <= ba * bb` whenever `|a| <= ba` and `|b| <= bb`.
pub proof fn lemma_mul_abs_bound(a: int, b: int, ba: int, bb: int)
    by (nonlinear_arith)
    requires
        abs(a) <= ba,
        abs(b) <= bb,
    ensures
        abs(a * b) <= ba * bb,
{
}

/// Truncated division of a nonnegative value by a positive one is
/// nonnegative.
pub proof fn lemma_tdiv_nonneg(a: int, b: int)
    requires
        a >= 0,
        b >= 1,
    ensures
        tdiv(a, b) >= 0,
{
    vstd::arithmetic::div_mod::lemma_div_pos_is_pos(a, b);
}

/// A product divided by its own (positive) factor is exact, whatever the
/// sign of the other factor.
pub proof fn lemma_tdiv_exact(a: int, b: int)
    requires
        b >= 1,
    ensures
        tdiv(a * b, b) == a,
{
    if a >= 0 {
        assert(a * b >= 0 && abs(a * b) == a * b && a * b == b * a) by (nonlinear_arith)
            requires
                a >= 0,
                b >= 1,
        ;
        vstd::arithmetic::div_mod::lemma_div_multiples_vanish(a, b);
    } else {
        assert(a * b < 0 && abs(a * b) == (-a) * b && (-a) * b == b * (-a)) by (nonlinear_arith)
            requires
                a < 0,
                b >= 1,
        ;
        vstd::arithmetic::div_mod::lemma_div_multiples_vanish(-a, b);
    }
}

/// A value at least `k` multiples of the divisor divides to at least `k`.
pub proof fn lemma_tdiv_lower(x: int, d: int, k: int)
    requires
        d >= 1,
        k >= 0,
        x >= k * d,
    ensures
        tdiv(x, d) >= k,
{
    assert(k * d >= 0 && k * d == d * k) by (nonlinear_arith)
        requires
            k >= 0,
            d >= 1,
    ;
    vstd::arithmetic::div_mod::lemma_div_is_ordered(k * d, x, d);
    vstd::arithmetic::div_mod::lemma_div_multiples_vanish(k, d);
}

/// Truncated division never grows a value's magnitude.
pub proof fn lemma_tdiv_abs_le(a: int, b: int)
    requires
        b >= 1,
    ensures
        abs(tdiv(a, b)) <= abs(a),
{
    assert(abs(a) as int / abs(b) as int <= abs(a) as int) by (nonlinear_arith)
        requires
            abs(b) >= 1,
    ;
}

/// Truncated division by a positive value is monotone in the numerator.
pub proof fn lemma_tdiv_mono(x: int, y: int, d: int)
    requires
        x <= y,
        d >= 1,
    ensures
        tdiv(x, d) <= tdiv(y, d),
{
    if x >= 0 {
        vstd::arithmetic::div_mod::lemma_div_is_ordered(x, y, d);
    } else if y < 0 {
        vstd::arithmetic::div_mod::lemma_div_is_ordered(-y, -x, d);
    } else {
        vstd::arithmetic::div_mod::lemma_div_pos_is_pos(-x, d);
        vstd::arithmetic::div_mod::lemma_div_pos_is_pos(y, d);
    }
}

/// The integer square root brackets its argument between two squares.
pub proof fn lemma_sqrt_nat(n: nat)
    ensures
        (sqrt_nat(n) as int) * (sqrt_nat(n) as int) <= n as int,
        (n as int) < (sqrt_nat(n) as int + 1) * (sqrt_nat(n) as int + 1),
    decreases n,
{
    if n > 0 {
        lemma_sqrt_nat((n - 1) as nat);
        let r = sqrt_nat((n - 1) as nat) as int;
        assert(r * r <= n - 1);
        assert(n - 1 < (r + 1) * (r + 1));
        if (r + 1) * (r + 1) <= n {
            assert(sqrt_nat(n) == sqrt_nat((n - 1) as nat) + 1);
            assert(sqrt_nat(n) as int == r + 1);
            assert((sqrt_nat(n) as int) * (sqrt_nat(n) as int) == (r + 1) * (r + 1))
                by (nonlinear_arith)
                requires
                    sqrt_nat(n) as int == r + 1,
            ;
            assert((r + 1) * (r + 1) < (r + 2) * (r + 2)) by (nonlinear_arith)
                requires
                    r >= 0,
            ;
        } else {
            assert(sqrt_nat(n) == sqrt_nat((n - 1) as nat));
            assert(sqrt_nat(n) as int == r);
            assert((sqrt_nat(n) as int) * (sqrt_nat(n) as int) == r * r) by (nonlinear_arith)
                requires
                    sqrt_nat(n) as int == r,
            ;
        }
    } else {
        assert(sqrt_nat(n) == 0);
    }
}

/// Any `r` bracketed between the same squares is the integer square root.
pub proof fn lemma_sqrt_nat_unique(n: int, r: int)
    requires
        0 <= n,
        0 <= r,
        r * r <= n,
        n < (r + 1) * (r + 1),
    ensures
        r == sqrt_nat(n as nat),
{
    lemma_sqrt_nat(n as nat);
    let s = sqrt_nat(n as nat) as int;
    if r < s {
        assert((r + 1) * (r + 1) <= s * s) by (nonlinear_arith)
            requires
                0 <= r + 1 <= s,
        ;
        assert(false);
    }
    if s < r {
        assert((s + 1) * (s + 1) <= r * r) by (nonlinear_arith)
            requires
                0 <= s + 1 <= r,
        ;
        assert(false);
    }
}

/// Truncated division on `i128`, computed on magnitudes so that executable
/// division is only ever applied to nonnegative values.
pub fn tdiv128(a: i128, b: i128) -> (q: i128)
    requires
        b != 0,
        a != i128::MIN,
        b != i128::MIN,
    ensures
        q == tdiv(a as int, b as int),
{
    let na: u128 = if a < 0 {
        (-a) as u128
    } else {
        a as u128
    };
    let nb: u128 = if b < 0 {
        (-b) as u128
    } else {
        b as u128
    };
    let q = na / nb;
    proof {
        assert(na == abs(a as int));
        assert(nb == abs(b as int));
        assert(na as int / nb as int <= na as int) by (nonlinear_arith)
            requires
                nb >= 1,
                na >= 0,
        ;
    }
    if (a < 0) != (b < 0) {
        -(q as i128)
    } else {
        q as i128
    }
}

/// `x` clamped to `[-m, m]`, narrowing to `i64`.
pub fn clamp128(x: i128, m: i64) -> (r: i64)
    requires
        m > 0,
    ensures
        r == clamp_to(x as int, m as int),
{
    if x > m as i128 {
        m
    } else if x < -(m as i128) {
        -m
    } else {
        x as i64
    }
}

/// Clamped raw sum.
pub fn add_fx(a: i64, b: i64) -> (r: i64)
    ensures
        r == fx_add(a as int, b as int),
{
    clamp128(a as i128 + b as i128, VMAX)
}

/// Clamped raw difference.
pub fn sub_fx(a: i64, b: i64) -> (r: i64)
    ensures
        r == fx_sub(a as int, b as int),
{
    clamp128(a as i128 - b as i128, VMAX)
}

/// Clamped raw fixed-point product.
pub fn mul_fx(a: i64, b: i64) -> (r: i64)
    ensures
        r == fx_mul(a as int, b as int),
{
    proof {
        lemma_mul_abs_bound(a as int, b as int, 0x8000_0000_0000_0000, 0x8000_0000_0000_0000);
    }
    let p = a as i128 * b as i128;
    clamp128(tdiv128(p, SCALE as i128), VMAX)
}

/// Clamped raw fixed-point quotient.
pub fn div_fx(a: i64, b: i64) -> (r: i64)
    requires
        b != 0,
    ensures
        r == fx_div(a as int, b as int),
{
    proof {
        lemma_mul_abs_bound(a as int, SCALE as int, 0x8000_0000_0000_0000, 0x10000);
    }
    clamp128(tdiv128(a as i128 * SCALE as i128, b as i128), VMAX)
}

/// Integer square root by bisection.
pub fn isqrt(n: u128) -> (r: u64)
    ensures
        r == sqrt_nat(n as nat),
{
    let mut lo: u64 = 0;
    let mut hi: u64 = u64::MAX;
    while lo < hi
        invariant
            lo as int * lo as int <= n,
            n < (hi as int + 1) * (hi as int + 1),
            lo <= hi,
        decreases hi - lo,
    {
        let mid = lo + (hi - lo) / 2;
        let next = mid + 1;
        proof {
            lemma_mul_abs_bound(next as int, next as int, u64::MAX as int, u64::MAX as int);
        }
        if (next as u128) * (next as u128) <= n {
            lo = next;
        } else {
            hi = mid;
        }
    }
    proof {
        lemma_sqrt_nat_unique(n as int, lo as int);
    }
    lo
}

/// Raw fixed-point square root.
pub fn sqrt_fx(a: i64) -> (r: i64)
    requires
        a >= 0,
    ensures
        r == fx_sqrt(a as int),
{
    let n = a as u128 * SCALE as u128;
    let r = isqrt(n);
    proof {
        lemma_mul_abs_bound(a as int, SCALE as int, 0x8000_0000_0000_0000, 0x10000);
        lemma_sqrt_nat(n as nat);
        let s = sqrt_nat(n as nat) as int;
        assert(n as int <= 0x8000_0000_0000_0000 * 0x10000);
        if s >= 0x10_0000_0000_0000 {
            assert(s * s >= 0x10_0000_0000_0000 * 0x10_0000_0000_0000) by (nonlinear_arith)
                requires
                    s >= 0x10_0000_0000_0000,
            ;
            assert(false);
        }
    }
    r as i64
}

} // verus!
