//! Fixed-point scalar arithmetic.
//!
//! Every numeric value in this library is a signed 64-bit integer that stands
//! for the real number `v / FX_ONE`, with `FX_ONE = 2^20`. All operations
//! saturate at `FX_MAX` / `FX_MIN` instead of overflowing, and division
//! truncates toward zero, so every operation is total and its result is
//! pinned down exactly by a spec function.

use vstd::prelude::*;
use vstd::arithmetic::div_mod::{
    lemma_div_multiples_vanish, lemma_div_nonincreasing, lemma_div_pos_is_pos,
    lemma_fundamental_div_mod, lemma_fundamental_div_mod_converse,
};
use vstd::arithmetic::mul::lemma_mul_nonnegative;

verus! {

/// The fixed-point scale: this integer stands for the real number 1.
pub const FX_ONE: i64 = 0x10_0000;

/// Half of one, used by the mean-squared-error loss.
pub const FX_HALF: i64 = 0x8_0000;

/// Largest representable value; arithmetic saturates here.
pub const FX_MAX: i64 = 0x7fff_ffff_ffff_ffff;

/// Smallest representable value; arithmetic saturates here, and negation
/// of it saturates at `FX_MAX`.
pub const FX_MIN: i64 = -0x8000_0000_0000_0000;

/// Clamp a mathematical integer into the representable range.
pub open spec fn sat(x: int) -> int {
    if x > FX_MAX as int {
        FX_MAX as int
    } else if x < FX_MIN as int {
        FX_MIN as int
    } else {
        x
    }
}

pub open spec fn abs_int(x: int) -> int {
    if x >= 0 {
        x
    } else {
        -x
    }
}

/// Division truncating toward zero, as the executable code performs it.
/// Meaningful only for `b != 0`.
pub open spec fn tdiv(a: int, b: int) -> int {
    let q = abs_int(a) / abs_int(b);
    if (a >= 0) == (b >= 0) {
        q
    } else {
        -q
    }
}

/// Saturating fixed-point addition.
pub open spec fn spec_add(a: i64, b: i64) -> i64 {
    sat(a + b) as i64
}

/// Saturating fixed-point subtraction.
pub open spec fn spec_sub(a: i64, b: i64) -> i64 {
    sat(a - b) as i64
}

/// Saturating fixed-point negation.
pub open spec fn spec_neg(a: i64) -> i64 {
    sat(-a) as i64
}

/// Saturating fixed-point multiplication: the exact product rescaled by
/// `FX_ONE`, truncating toward zero.
pub open spec fn spec_mul(a: i64, b: i64) -> i64 {
    sat(tdiv(a * b, FX_ONE as int)) as i64
}

/// Saturating fixed-point division: `a / b` rescaled by `FX_ONE`,
/// truncating toward zero. Division by zero saturates by the sign of `a`.
pub open spec fn spec_div(a: i64, b: i64) -> i64 {
    if b == 0 {
        if a > 0 {
            FX_MAX
        } else if a < 0 {
            FX_MIN
        } else {
            0
        }
    } else {
        sat(tdiv(a * FX_ONE, b as int)) as i64
    }
}

/// Clamp a wide intermediate into the representable `i64` range.
fn clamp_i128(x: i128) -> (r: i64)
    ensures
        r as int == sat(x as int),
{
    if x > FX_MAX as i128 {
        FX_MAX
    } else if x < FX_MIN as i128 {
        FX_MIN
    } else {
        x as i64
    }
}

/// Magnitude of an `i128` that is not `i128::MIN`, as `u128`.
fn abs_u128(x: i128) -> (r: u128)
    requires
        -0x7fff_ffff_ffff_ffff_ffff_ffff_ffff_ffff <= x,
    ensures
        r as int == abs_int(x as int),
{
    if x >= 0 {
        x as u128
    } else {
        (-x) as u128
    }
}

/// Truncating division of a wide intermediate by a positive divisor.
fn tdiv_i128(a: i128, b: i128) -> (r: i128)
    requires
        -0x7fff_ffff_ffff_ffff_ffff_ffff_ffff_ffff <= a,
        0 < b <= 0x7fff_ffff_ffff_ffff_ffff_ffff_ffff_ffff,
    ensures
        r as int == tdiv(a as int, b as int),
        abs_int(r as int) <= abs_int(a as int),
{
    let m: u128 = abs_u128(a);
    let d: u128 = b as u128;
    let q: u128 = m / d;
    proof {
        lemma_div_pos_is_pos(m as int, d as int);
        lemma_div_nonincreasing(m as int, d as int);
    }
    if a >= 0 {
        q as i128
    } else {
        -(q as i128)
    }
}

pub fn fx_add(a: i64, b: i64) -> (r: i64)
    ensures
        r == spec_add(a, b),
{
    clamp_i128(a as i128 + b as i128)
}

pub fn fx_sub(a: i64, b: i64) -> (r: i64)
    ensures
        r == spec_sub(a, b),
{
    clamp_i128(a as i128 - b as i128)
}

pub fn fx_neg(a: i64) -> (r: i64)
    ensures
        r == spec_neg(a),
{
    clamp_i128(-(a as i128))
}

pub fn fx_mul(a: i64, b: i64) -> (r: i64)
    ensures
        r == spec_mul(a, b),
{
    proof {
        assert(-0x4000_0000_0000_0000_0000_0000_0000_0000 <= (a as int) * (b as int)
            <= 0x4000_0000_0000_0000_0000_0000_0000_0000) by (nonlinear_arith)
            requires
                -0x8000_0000_0000_0000 <= a as int <= 0x7fff_ffff_ffff_ffff,
                -0x8000_0000_0000_0000 <= b as int <= 0x7fff_ffff_ffff_ffff,
        ;
    }
    let p: i128 = (a as i128) * (b as i128);
    let q: i128 = tdiv_i128(p, FX_ONE as i128);
    clamp_i128(q)
}

pub fn fx_div(a: i64, b: i64) -> (r: i64)
    ensures
        r == spec_div(a, b),
{
    if b == 0 {
        if a > 0 {
            FX_MAX
        } else if a < 0 {
            FX_MIN
        } else {
            0
        }
    } else {
        let n: i128 = (a as i128) * (FX_ONE as i128);
        let m: u128 = abs_u128(n);
        let d: u128 = abs_u128(b as i128);
        let qm: u128 = m / d;
        proof {
            lemma_div_pos_is_pos(m as int, d as int);
            lemma_div_nonincreasing(m as int, d as int);
        }
        let q: i128 = qm as i128;
        if (a < 0) != (b < 0) {
            clamp_i128(-q)
        } else {
            clamp_i128(q)
        }
    }
}

/// Truncating division of a fixed-point value by a small positive integer
/// count (not a fixed-point divisor).
pub open spec fn sdiv(a: i64, d: i64) -> i64 {
    tdiv(a as int, d as int) as i64
}

pub fn fx_sdiv(a: i64, d: i64) -> (r: i64)
    requires
        1 <= d,
    ensures
        r == sdiv(a, d),
        abs_int(r as int) <= abs_int(a as int),
        a >= 0 ==> r >= 0,
{
    let q: i128 = tdiv_i128(a as i128, d as i128);
    proof {
        if a >= 0 {
            lemma_div_pos_is_pos(a as int, d as int);
        }
    }
    q as i64
}

/// Multiplying by the fixed-point one is exact.
pub proof fn lemma_mul_one(a: i64)
    ensures
        spec_mul(a, FX_ONE) == a,
{
    let s = FX_ONE as int;
    if a >= 0 {
        lemma_div_multiples_vanish(a as int, s);
        assert(abs_int((a as int) * s) == s * (a as int));
        assert(tdiv((a as int) * s, s) == a as int);
    } else {
        lemma_div_multiples_vanish(-(a as int), s);
        assert(abs_int((a as int) * s) == s * (-(a as int)));
        assert(tdiv((a as int) * s, s) == a as int);
    }
}

/// One divided by one is one.
pub proof fn lemma_one_div_one()
    ensures
        spec_div(FX_ONE, FX_ONE) == FX_ONE,
{
    lemma_mul_one(FX_ONE);
}

/// The product of nonnegative values is nonnegative.
pub proof fn lemma_spec_mul_nonneg(a: i64, b: i64)
    requires
        a >= 0,
        b >= 0,
    ensures
        spec_mul(a, b) >= 0,
{
    lemma_mul_nonnegative(a as int, b as int);
    lemma_div_pos_is_pos(a * b, FX_ONE as int);
}

/// Dividing a nonnegative value by a positive count keeps it in
/// `[0, a]`.
pub proof fn lemma_sdiv_nonneg(a: i64, d: i64)
    requires
        a >= 0,
        d >= 1,
    ensures
        0 <= sdiv(a, d) <= a,
{
    lemma_div_pos_is_pos(a as int, d as int);
    lemma_div_nonincreasing(a as int, d as int);
}

// ---- Exponential ----

/// Upper clip for the exponential's argument (32 in fixed point):
/// everything at or above saturates.
pub const EXP_ARG_HI: i64 = 0x200_0000;

/// Lower clip (-32 in fixed point): everything at or below is zero.
pub const EXP_ARG_LO: i64 = -0x200_0000;

/// Euler's number in fixed point.
pub const FX_E: i64 = 2850325;

/// The reciprocal of Euler's number in fixed point.
pub const FX_E_INV: i64 = 385749;

/// Term `k` of the exponential's power series at `r / FX_ONE`:
/// `r^k / k!`, evaluated with fixed-point operations.
pub open spec fn exp_term(r: i64, k: nat) -> i64
    decreases k,
{
    if k == 0 {
        FX_ONE
    } else {
        sdiv(spec_mul(exp_term(r, (k - 1) as nat), r), k as i64)
    }
}

/// Partial sum of the exponential's power series up to term `k`.
pub open spec fn exp_sum(r: i64, k: nat) -> i64
    decreases k,
{
    if k == 0 {
        FX_ONE
    } else {
        spec_add(exp_sum(r, (k - 1) as nat), exp_term(r, k))
    }
}

/// `acc` multiplied `n` times by `e`, in order.
pub open spec fn exp_pow_pos(n: nat, acc: i64) -> i64
    decreases n,
{
    if n == 0 {
        acc
    } else {
        exp_pow_pos((n - 1) as nat, spec_mul(acc, FX_E))
    }
}

/// `acc` multiplied `n` times by `1/e`, in order.
pub open spec fn exp_pow_neg(n: nat, acc: i64) -> i64
    decreases n,
{
    if n == 0 {
        acc
    } else {
        exp_pow_neg((n - 1) as nat, spec_mul(acc, FX_E_INV))
    }
}

/// The library's exponential: argument clipping, then `e^q * series(r)`
/// for the argument split as `q + r/FX_ONE` with `0 <= r < FX_ONE`.
pub open spec fn spec_exp(x: i64) -> i64 {
    if x >= EXP_ARG_HI {
        FX_MAX
    } else if x <= EXP_ARG_LO {
        0
    } else {
        let q = (x as int) / (FX_ONE as int);
        let r = ((x as int) % (FX_ONE as int)) as i64;
        let frac = exp_sum(r, 12);
        if q >= 0 {
            exp_pow_pos(q as nat, frac)
        } else {
            exp_pow_neg((-q) as nat, frac)
        }
    }
}

proof fn lemma_exp_term_nonneg(r: i64, k: nat)
    requires
        r >= 0,
        k <= 0xffff,
    ensures
        exp_term(r, k) >= 0,
    decreases k,
{
    if k > 0 {
        lemma_exp_term_nonneg(r, (k - 1) as nat);
        lemma_spec_mul_nonneg(exp_term(r, (k - 1) as nat), r);
        lemma_sdiv_nonneg(spec_mul(exp_term(r, (k - 1) as nat), r), k as i64);
    }
}

proof fn lemma_exp_sum_nonneg(r: i64, k: nat)
    requires
        r >= 0,
        k <= 0xffff,
    ensures
        exp_sum(r, k) >= 0,
    decreases k,
{
    if k > 0 {
        lemma_exp_sum_nonneg(r, (k - 1) as nat);
        lemma_exp_term_nonneg(r, k);
    }
}

proof fn lemma_exp_pow_pos_nonneg(n: nat, acc: i64)
    requires
        acc >= 0,
    ensures
        exp_pow_pos(n, acc) >= 0,
    decreases n,
{
    if n > 0 {
        lemma_spec_mul_nonneg(acc, FX_E);
        lemma_exp_pow_pos_nonneg((n - 1) as nat, spec_mul(acc, FX_E));
    }
}

proof fn lemma_exp_pow_neg_nonneg(n: nat, acc: i64)
    requires
        acc >= 0,
    ensures
        exp_pow_neg(n, acc) >= 0,
    decreases n,
{
    if n > 0 {
        lemma_spec_mul_nonneg(acc, FX_E_INV);
        lemma_exp_pow_neg_nonneg((n - 1) as nat, spec_mul(acc, FX_E_INV));
    }
}

/// The exponential is never negative.
pub proof fn lemma_spec_exp_nonneg(x: i64)
    ensures
        spec_exp(x) >= 0,
{
    if x >= EXP_ARG_HI {
    } else if x <= EXP_ARG_LO {
    } else {
        let q = (x as int) / (FX_ONE as int);
        let r = ((x as int) % (FX_ONE as int)) as i64;
        lemma_fundamental_div_mod(x as int, FX_ONE as int);
        assert(0 <= (x as int) % (FX_ONE as int) < FX_ONE);
        lemma_exp_sum_nonneg(r, 12);
        if q >= 0 {
            lemma_exp_pow_pos_nonneg(q as nat, exp_sum(r, 12));
        } else {
            lemma_exp_pow_neg_nonneg((-q) as nat, exp_sum(r, 12));
        }
    }
}

/// The fixed-point exponential.
pub fn fx_exp(x: i64) -> (r: i64)
    ensures
        r == spec_exp(x),
        r >= 0,
{
    proof {
        lemma_spec_exp_nonneg(x);
    }
    if x >= EXP_ARG_HI {
        return FX_MAX;
    }
    if x <= EXP_ARG_LO {
        return 0;
    }
    let q: i64;
    let rem: i64;
    if x >= 0 {
        let qu: u64 = (x as u64) / (FX_ONE as u64);
        let ru: u64 = (x as u64) % (FX_ONE as u64);
        q = qu as i64;
        rem = ru as i64;
        proof {
            lemma_fundamental_div_mod(x as int, FX_ONE as int);
            lemma_fundamental_div_mod_converse(
                x as int,
                FX_ONE as int,
                q as int,
                rem as int,
            );
        }
    } else {
        let m: u64 = (-x) as u64;
        let qu: u64 = m / (FX_ONE as u64);
        let ru: u64 = m % (FX_ONE as u64);
        if ru == 0 {
            q = -(qu as i64);
            rem = 0;
        } else {
            q = -(qu as i64) - 1;
            rem = FX_ONE - (ru as i64);
        }
        proof {
            lemma_fundamental_div_mod(m as int, FX_ONE as int);
            lemma_fundamental_div_mod_converse(
                x as int,
                FX_ONE as int,
                q as int,
                rem as int,
            );
        }
    }
    assert(q as int == (x as int) / (FX_ONE as int));
    assert(rem as int == (x as int) % (FX_ONE as int));
    assert(-32 <= q <= 31) by {
        assert((q as int) * (FX_ONE as int) == x as int - rem as int);
    };
    let ghost rem0 = rem;
    let mut term: i64 = FX_ONE;
    let mut acc: i64 = FX_ONE;
    let mut k: usize = 1;
    while k <= 12
        invariant
            1 <= k <= 13,
            0 <= rem < FX_ONE,
            term == exp_term(rem, (k - 1) as nat),
            acc == exp_sum(rem, (k - 1) as nat),
        decreases 13 - k,
    {
        let p: i64 = fx_mul(term, rem);
        term = fx_sdiv(p, k as i64);
        acc = fx_add(acc, term);
        k += 1;
    }
    assert(acc == exp_sum(rem, 12));
    let mut result: i64 = acc;
    if q >= 0 {
        let mut n: i64 = q;
        while n > 0
            invariant
                0 <= n <= q,
                exp_pow_pos(n as nat, result) == exp_pow_pos(q as nat, exp_sum(rem, 12)),
            decreases n,
        {
            result = fx_mul(result, FX_E);
            n -= 1;
        }
        result
    } else {
        let mut n: i64 = -q;
        while n > 0
            invariant
                0 <= n <= -(q as int),
                exp_pow_neg(n as nat, result) == exp_pow_neg((-q) as nat, exp_sum(rem, 12)),
            decreases n,
        {
            result = fx_mul(result, FX_E_INV);
            n -= 1;
        }
        result
    }
}

// ---- Natural logarithm ----

/// The natural logarithm of 2 in fixed point.
pub const FX_LN2: i64 = 726817;

/// Doublings needed to bring `x` up into `[FX_ONE/2, FX_ONE]`.
pub open spec fn ln_steps(x: i64) -> nat
    decreases FX_ONE - x,
{
    if x < 1 || x >= FX_HALF {
        0
    } else {
        (1 + ln_steps((2 * x) as i64)) as nat
    }
}

/// The value of `x` after those doublings.
pub open spec fn ln_normed(x: i64) -> i64
    decreases FX_ONE - x,
{
    if x < 1 || x >= FX_HALF {
        x
    } else {
        ln_normed((2 * x) as i64)
    }
}

/// Odd power `z^(2k+1)` of the logarithm's series argument.
pub open spec fn ln_term(z: i64, k: nat) -> i64
    decreases k,
{
    if k == 0 {
        z
    } else {
        spec_mul(ln_term(z, (k - 1) as nat), spec_mul(z, z))
    }
}

/// Partial sum `z + z^3/3 + ... + z^(2k+1)/(2k+1)` of `atanh(z)`.
pub open spec fn ln_series(z: i64, k: nat) -> i64
    decreases k,
{
    if k == 0 {
        z
    } else {
        spec_add(ln_series(z, (k - 1) as nat), sdiv(ln_term(z, k), (2 * k + 1) as i64))
    }
}

/// `v` with `ln 2` subtracted `n` times, in order.
pub open spec fn ln_unshift(v: i64, n: nat) -> i64
    decreases n,
{
    if n == 0 {
        v
    } else {
        ln_unshift(spec_sub(v, FX_LN2), (n - 1) as nat)
    }
}

/// The library's natural logarithm on `[1, FX_ONE]` (zero outside):
/// normalize into `[1/2, 1]` by doublings, evaluate
/// `2 * atanh((v - 1)/(v + 1))` by series, then subtract `ln 2` once per
/// doubling.
pub open spec fn spec_ln(x: i64) -> i64 {
    if x < 1 || x > FX_ONE {
        0
    } else {
        let v = ln_normed(x);
        let z = spec_div(spec_sub(v, FX_ONE), spec_add(v, FX_ONE));
        let s = ln_series(z, 5);
        ln_unshift(spec_add(s, s), ln_steps(x))
    }
}

/// The fixed-point natural logarithm, defined on `[1, FX_ONE]`.
pub fn fx_ln(x: i64) -> (r: i64)
    ensures
        r == spec_ln(x),
{
    if x < 1 || x > FX_ONE {
        return 0;
    }
    let mut v: i64 = x;
    let mut steps: u64 = 0;
    while v < FX_HALF
        invariant
            1 <= v <= FX_ONE,
            v as int >= steps as int + 1,
            ln_normed(v) == ln_normed(x),
            ln_steps(v) + steps == ln_steps(x),
        decreases FX_ONE - v,
    {
        v = 2 * v;
        steps += 1;
    }
    assert(v == ln_normed(x));
    let z: i64 = fx_div(fx_sub(v, FX_ONE), fx_add(v, FX_ONE));
    let z2: i64 = fx_mul(z, z);
    let mut t: i64 = z;
    let mut s: i64 = z;
    let mut k: usize = 1;
    while k <= 5
        invariant
            1 <= k <= 6,
            z2 == spec_mul(z, z),
            t == ln_term(z, (k - 1) as nat),
            s == ln_series(z, (k - 1) as nat),
        decreases 6 - k,
    {
        t = fx_mul(t, z2);
        let d: i64 = fx_sdiv(t, 2 * (k as i64) + 1);
        s = fx_add(s, d);
        k += 1;
    }
    assert(s == ln_series(z, 5));
    let mut r: i64 = fx_add(s, s);
    let mut n: u64 = steps;
    while n > 0
        invariant
            0 <= n <= steps,
            ln_unshift(r, n as nat) == ln_unshift(spec_add(ln_series(z, 5), ln_series(z, 5)),
                steps as nat),
        decreases n,
    {
        r = fx_sub(r, FX_LN2);
        n -= 1;
    }
    r
}

} // verus!
