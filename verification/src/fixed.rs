//! Fixed-point scalar arithmetic.
//!
//! A scalar is an `i64` counting millionths of a unit (`FX_ONE` is 1.0).
//! Every operation is total: division by zero yields zero, and any result
//! outside the `i64` range saturates to the nearest bound.  Each executable
//! operation is specified exactly by the spec function of the same shape,
//! so everything built on these scalars is a pure function of its inputs.

use vstd::prelude::*;

verus! {

/// One whole unit: scalars count millionths.
pub const FX_ONE: i64 = 1_000_000;

/// One half, used to average restitution coefficients.
pub const FX_HALF: i64 = 500_000;

/// Saturation of a mathematical integer to the `i64` range.
pub open spec fn clip(x: int) -> int {
    if x > i64::MAX as int {
        i64::MAX as int
    } else if x < i64::MIN as int {
        i64::MIN as int
    } else {
        x
    }
}

/// Division rounding toward zero (the rounding of Rust's `/` on machine
/// integers), made total by mapping a zero divisor to zero.
pub open spec fn div_t(a: int, b: int) -> int {
    if b == 0 {
        0
    } else if a == 0 {
        0
    } else if a > 0 && b > 0 {
        a / b
    } else if a < 0 && b < 0 {
        (a * -1) / (b * -1)
    } else if a < 0 {
        ((a * -1) / b) * -1
    } else {
        (a / (b * -1)) * -1
    }
}

pub open spec fn fx_add_s(a: int, b: int) -> int {
    clip(a + b)
}

pub open spec fn fx_sub_s(a: int, b: int) -> int {
    clip(a - b)
}

pub open spec fn fx_neg_s(a: int) -> int {
    clip(-a)
}

/// Fixed-point product: the mathematical product rescaled by one unit.
pub open spec fn fx_mul_s(a: int, b: int) -> int {
    clip(div_t(a * b, FX_ONE as int))
}

/// Fixed-point quotient, total: a zero divisor yields zero.
pub open spec fn fx_div_s(a: int, b: int) -> int {
    if b == 0 {
        0
    } else {
        clip(div_t(a * (FX_ONE as int), b))
    }
}

/// The integer square root: the greatest `r` with `r * r <= n`.
pub open spec fn sqrt_i(n: nat) -> nat
    decreases n,
{
    if n == 0 {
        0
    } else {
        let r = sqrt_i((n - 1) as nat);
        if (r + 1) * (r + 1) <= n {
            (r + 1) as nat
        } else {
            r
        }
    }
}

pub proof fn lemma_sqrt_i_char(n: nat)
    ensures
        sqrt_i(n) * sqrt_i(n) <= n,
        n < (sqrt_i(n) as int + 1) * (sqrt_i(n) as int + 1),
    decreases n,
{
    if n > 0 {
        lemma_sqrt_i_char((n - 1) as nat);
        let r = sqrt_i((n - 1) as nat);
        if (r + 1) * (r + 1) <= n {
            assert(sqrt_i(n) == r + 1);
            assert((r as int + 1) * (r as int + 1) < (r as int + 2) * (r as int + 2)) by (nonlinear_arith)
                requires r >= 0;
            assert(n <= (r as int + 1) * (r as int + 1));
        } else {
            assert(sqrt_i(n) == r);
        }
    } else {
        assert(sqrt_i(0) == 0);
    }
}

pub proof fn lemma_sqrt_i_unique(n: nat, r: nat)
    requires
        r * r <= n,
        n < (r as int + 1) * (r as int + 1),
    ensures
        r == sqrt_i(n),
{
    lemma_sqrt_i_char(n);
    let s = sqrt_i(n);
    if r < s {
        assert((r as int + 1) * (r as int + 1) <= s * s) by (nonlinear_arith)
            requires 0 <= r < s;
    }
    if s < r {
        assert((s as int + 1) * (s as int + 1) <= r * r) by (nonlinear_arith)
            requires 0 <= s < r;
    }
}

pub open spec fn abs_v(x: int) -> int {
    if x >= 0 {
        x
    } else {
        -x
    }
}

/// Truncating division never grows the magnitude: `|a / b| * b <= |a|`.
pub proof fn lemma_div_t_scaled_bound(a: int, b: int)
    requires
        b > 0,
    ensures
        abs_v(div_t(a, b)) * b <= abs_v(a),
        abs_v(div_t(a, b)) >= 0,
{
    if a > 0 {
        vstd::arithmetic::div_mod::lemma_fundamental_div_mod(a, b);
        vstd::arithmetic::div_mod::lemma_mod_bound(a, b);
        lemma_div_bounds(a, b);
        assert((a / b) * b == b * (a / b)) by (nonlinear_arith);
    } else if a < 0 {
        vstd::arithmetic::div_mod::lemma_fundamental_div_mod(a * -1, b);
        vstd::arithmetic::div_mod::lemma_mod_bound(a * -1, b);
        lemma_div_bounds(a * -1, b);
        assert(((a * -1) / b) * b == b * ((a * -1) / b)) by (nonlinear_arith);
        assert(abs_v(div_t(a, b)) == (a * -1) / b);
    } else {
        assert(0 * b == 0) by (nonlinear_arith);
    }
}

/// Saturation never grows the magnitude.
pub proof fn lemma_clip_abs(x: int)
    ensures
        abs_v(clip(x)) <= abs_v(x),
{
}

/// Saturation of an `i128` intermediate into an `i64`.
fn clamp_to_i64(s: i128) -> (r: i64)
    ensures
        r as int == clip(s as int),
{
    if s > i64::MAX as i128 {
        i64::MAX
    } else if s < i64::MIN as i128 {
        i64::MIN
    } else {
        s as i64
    }
}

/// Truncating division of an `i128` by a nonzero divisor.
fn div_t_i128(a: i128, b: i128) -> (r: i128)
    requires
        b != 0,
        a != i128::MIN,
    ensures
        r as int == div_t(a as int, b as int),
{
    proof {
        lemma_div_t_in_range(a as int, b as int);
        assert(i128::MIN <= div_t(a as int, b as int) <= i128::MAX);
    }
    match a.checked_div(b) {
        Some(q) => q,
        None => 0,
    }
}

/// The magnitude of a truncating quotient never exceeds the magnitude of the
/// dividend, so the quotient of two `i128` values fits in an `i128` except in
/// the lone `MIN / -1` corner.
pub proof fn lemma_div_t_in_range(a: int, b: int)
    requires
        b != 0,
    ensures
        a >= 0 ==> -a <= div_t(a, b) <= a,
        a < 0 ==> a <= div_t(a, b) <= a * -1,
{
    if a > 0 && b > 0 {
        lemma_div_bounds(a, b);
    } else if a < 0 && b < 0 {
        lemma_div_bounds(a * -1, b * -1);
    } else if a < 0 {
        lemma_div_bounds(a * -1, b);
    } else if a > 0 {
        lemma_div_bounds(a, b * -1);
    }
}

/// For nonnegative `a` and positive `b`, `0 <= a / b <= a`.
proof fn lemma_div_bounds(a: int, b: int)
    requires
        a >= 0,
        b > 0,
    ensures
        0 <= a / b <= a,
{
    assert(0 <= a / b <= a) by (nonlinear_arith)
        requires a >= 0 && b > 0;
}

/// Saturating fixed-point addition.
pub fn fx_add(a: i64, b: i64) -> (r: i64)
    ensures
        r as int == fx_add_s(a as int, b as int),
{
    let s: i128 = a as i128 + b as i128;
    clamp_to_i64(s)
}

/// Saturating fixed-point subtraction.
pub fn fx_sub(a: i64, b: i64) -> (r: i64)
    ensures
        r as int == fx_sub_s(a as int, b as int),
{
    let s: i128 = a as i128 - b as i128;
    clamp_to_i64(s)
}

/// Saturating fixed-point negation.
pub fn fx_neg(a: i64) -> (r: i64)
    ensures
        r as int == fx_neg_s(a as int),
{
    let s: i128 = -(a as i128);
    clamp_to_i64(s)
}

/// Saturating fixed-point multiplication.
pub fn fx_mul(a: i64, b: i64) -> (r: i64)
    ensures
        r as int == fx_mul_s(a as int, b as int),
{
    proof {
        assert(i128::MIN < (a as int) * (b as int) <= i128::MAX) by (nonlinear_arith)
            requires
                -0x8000_0000_0000_0000 <= a as int <= 0x7fff_ffff_ffff_ffff,
                -0x8000_0000_0000_0000 <= b as int <= 0x7fff_ffff_ffff_ffff;
    }
    let p: i128 = (a as i128) * (b as i128);
    let q: i128 = div_t_i128(p, FX_ONE as i128);
    clamp_to_i64(q)
}

/// Saturating fixed-point division; a zero divisor yields zero.
pub fn fx_div(a: i64, b: i64) -> (r: i64)
    ensures
        r as int == fx_div_s(a as int, b as int),
{
    if b == 0 {
        0
    } else {
        proof {
            assert(i128::MIN < (a as int) * (FX_ONE as int) <= i128::MAX) by (nonlinear_arith)
                requires
                    -0x8000_0000_0000_0000 <= a as int <= 0x7fff_ffff_ffff_ffff,
                    FX_ONE as int == 1_000_000;
        }
        let n: i128 = (a as i128) * (FX_ONE as i128);
        let q: i128 = div_t_i128(n, b as i128);
        clamp_to_i64(q)
    }
}

/// The integer square root of a `u128`, by bisection.
pub fn isqrt_u128(n: u128) -> (r: u64)
    ensures
        r as nat == sqrt_i(n as nat),
{
    let mut lo: u128 = 0;
    let mut hi: u128 = u64::MAX as u128;
    proof {
        assert((hi as int + 1) * (hi as int + 1) > u128::MAX) by (nonlinear_arith)
            requires hi == 0xffff_ffff_ffff_ffffu128;
    }
    while lo < hi
        invariant
            lo <= hi <= u64::MAX,
            lo * lo <= n as nat,
            (n as int) < (hi as int + 1) * (hi as int + 1),
        decreases hi - lo,
    {
        let mid: u128 = lo + (hi - lo + 1) / 2;
        assert(lo < mid <= hi);
        proof {
            assert(mid * mid <= u128::MAX) by (nonlinear_arith)
                requires 0 <= mid as int <= 0xffff_ffff_ffff_ffffu128 as int;
        }
        let sq: u128 = mid * mid;
        if sq <= n {
            lo = mid;
        } else {
            hi = mid - 1;
        }
    }
    proof {
        lemma_sqrt_i_unique(n as nat, lo as nat);
    }
    lo as u64
}

} // verus!
