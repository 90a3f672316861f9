//! Q.16 fixed-point scalar arithmetic.
//!
//! A signal value is an `i64` holding the signal scaled by `FX_ONE` (65536).
//! Every operation saturates at the `i64` range instead of overflowing or
//! panicking; division by zero yields the saturated value of the dividend's
//! sign, standing in for an infinity. Each function's contract states the
//! exact integer result.

use vstd::prelude::*;

verus! {

/// The fixed-point representation of 1.0.
pub const FX_ONE: i64 = 65536;

/// The fixed-point representation of 0.5.
pub const FX_HALF: i64 = 32768;

/// Clamp a mathematical integer to the `i64` range.
pub open spec fn sat64(x: int) -> int {
    if x > i64::MAX {
        i64::MAX as int
    } else if x < i64::MIN {
        i64::MIN as int
    } else {
        x
    }
}

/// Division truncating toward zero (the direction the engine's kernels use),
/// defined for a positive divisor.
pub open spec fn div_trunc(p: int, d: int) -> int
    recommends
        d > 0,
{
    if p >= 0 {
        p / d
    } else {
        -((-p) / d)
    }
}

/// The exact value of a saturating fixed-point product.
pub open spec fn fx_mul_spec(a: int, b: int) -> int {
    sat64(div_trunc(a * b, FX_ONE as int))
}

/// The exact value of a saturating fixed-point quotient; a zero divisor
/// saturates in the direction of the dividend's sign.
pub open spec fn fx_div_spec(a: int, b: int) -> int {
    if b == 0 {
        if a >= 0 {
            i64::MAX as int
        } else {
            i64::MIN as int
        }
    } else if b > 0 {
        sat64(div_trunc(a * FX_ONE, b))
    } else {
        sat64(-div_trunc(a * FX_ONE, -b))
    }
}

/// Saturating addition.
pub fn fx_add(a: i64, b: i64) -> (r: i64)
    ensures
        r == sat64(a + b),
{
    match a.checked_add(b) {
        Some(v) => v,
        None => {
            if a > 0 {
                i64::MAX
            } else {
                i64::MIN
            }
        },
    }
}

/// Saturating subtraction.
pub fn fx_sub(a: i64, b: i64) -> (r: i64)
    ensures
        r == sat64(a - b),
{
    match a.checked_sub(b) {
        Some(v) => v,
        None => {
            if a >= 0 {
                i64::MAX
            } else {
                i64::MIN
            }
        },
    }
}

/// The magnitude of an `i64`, as a `u128`.
fn abs_u128(a: i64) -> (r: u128)
    ensures
        r == if a >= 0 { a as int } else { -(a as int) },
{
    if a >= 0 {
        a as u128
    } else {
        (-(a as i128)) as u128
    }
}

/// Saturating fixed-point multiplication: the product of two signals.
pub fn fx_mul(a: i64, b: i64) -> (r: i64)
    ensures
        r == fx_mul_spec(a as int, b as int),
{
    let am = abs_u128(a);
    let bm = abs_u128(b);
    proof {
        assert(am * bm <= (i64::MAX as u128 + 1) * (i64::MAX as u128 + 1)) by (nonlinear_arith)
            requires
                am <= i64::MAX as u128 + 1,
                bm <= i64::MAX as u128 + 1,
        ;
    }
    let m: u128 = (am * bm) / (FX_ONE as u128);
    let neg = (a < 0) != (b < 0);
    proof {
        lemma_mul_abs(a as int, b as int, am as int, bm as int);
        if neg {
            assert(div_trunc(a * b, FX_ONE as int) == -((am * bm) as int / FX_ONE as int));
        } else {
            assert(div_trunc(a * b, FX_ONE as int) == (am * bm) as int / FX_ONE as int);
        }
    }
    if neg {
        if m > (i64::MAX as u128) + 1 {
            i64::MIN
        } else {
            (-(m as i128)) as i64
        }
    } else {
        if m > i64::MAX as u128 {
            i64::MAX
        } else {
            m as i64
        }
    }
}

proof fn lemma_mul_abs(a: int, b: int, am: int, bm: int)
    requires
        am == if a >= 0 { a } else { -a },
        bm == if b >= 0 { b } else { -b },
    ensures
        a * b == if (a < 0) != (b < 0) { -(am * bm) } else { am * bm },
        am * bm >= 0,
{
    assert(a * b == if (a < 0) != (b < 0) { -(am * bm) } else { am * bm }) by (nonlinear_arith)
        requires
            am == if a >= 0 { a } else { -a },
            bm == if b >= 0 { b } else { -b },
    ;
    assert(am * bm >= 0) by (nonlinear_arith)
        requires
            am >= 0,
            bm >= 0,
    ;
}

/// Saturating fixed-point division: the ratio of two signals. A zero divisor
/// saturates in the direction of the dividend's sign, standing in for the
/// infinity that the ratio approaches.
pub fn fx_div(a: i64, b: i64) -> (r: i64)
    ensures
        r == fx_div_spec(a as int, b as int),
{
    if b == 0 {
        return if a >= 0 {
            i64::MAX
        } else {
            i64::MIN
        };
    }
    let am = abs_u128(a);
    let bm = abs_u128(b);
    proof {
        assert(am * (FX_ONE as u128) <= u128::MAX) by (nonlinear_arith)
            requires
                am <= i64::MAX as u128 + 1,
        ;
    }
    let p: u128 = am * (FX_ONE as u128);
    let m: u128 = p / bm;
    let neg = (a < 0) != (b < 0);
    proof {
        lemma_mul_abs(a as int, FX_ONE as int, am as int, FX_ONE as int);
        let babs: int = if b >= 0 { b as int } else { -(b as int) };
        assert(babs == bm as int);
        if b > 0 {
            assert(div_trunc(a * FX_ONE, b as int) == if a >= 0 { p as int / babs } else { -(p as int / babs) });
        } else {
            assert(-div_trunc(a * FX_ONE, -(b as int)) == if a >= 0 { -(p as int / babs) } else { p as int / babs });
        }
    }
    if neg {
        if m > (i64::MAX as u128) + 1 {
            i64::MIN
        } else {
            (-(m as i128)) as i64
        }
    } else {
        if m > i64::MAX as u128 {
            i64::MAX
        } else {
            m as i64
        }
    }
}

/// The smaller of two signals.
pub fn fx_min(a: i64, b: i64) -> (r: i64)
    ensures
        r == if a <= b { a as int } else { b as int },
{
    if a <= b {
        a
    } else {
        b
    }
}

/// The larger of two signals.
pub fn fx_max(a: i64, b: i64) -> (r: i64)
    ensures
        r == if a >= b { a as int } else { b as int },
{
    if a >= b {
        a
    } else {
        b
    }
}

/// The exact value of `fx_clamp`.
pub open spec fn fx_clamp_spec(x: int, lo: int, hi: int) -> int {
    if x < lo {
        lo
    } else if x > hi {
        hi
    } else {
        x
    }
}

/// Clamp a signal to `[lo, hi]`. When `lo > hi` the result is still defined
/// (the `lo` bound wins below it, the `hi` bound above), a deterministic
/// sentinel rather than a fault.
pub fn fx_clamp(x: i64, lo: i64, hi: i64) -> (r: i64)
    ensures
        r == fx_clamp_spec(x as int, lo as int, hi as int),
{
    if x < lo {
        lo
    } else if x > hi {
        hi
    } else {
        x
    }
}

/// The whole-number part of a signal, rounded toward negative infinity:
/// the index of the unit segment the signal falls in.
pub fn fx_floor_index(a: i64) -> (r: i64)
    ensures
        r == (a as int) / (FX_ONE as int),
        (r as int) * (FX_ONE as int) <= a as int,
        (a as int) < (r as int + 1) * (FX_ONE as int),
        -140737488355328 <= r <= 140737488355327,
{
    let q = a / FX_ONE;
    let rem = a % FX_ONE;
    proof {
        vstd::arithmetic::div_mod::lemma_div_is_ordered(i64::MIN as int, a as int, FX_ONE as int);
        vstd::arithmetic::div_mod::lemma_div_is_ordered(a as int, i64::MAX as int, FX_ONE as int);
    }
    if a < 0 && rem != 0 {
        q - 1
    } else {
        q
    }
}

/// A signal reduced modulo 1.0, into `[0, FX_ONE)`.
pub fn fx_rem_one(a: i64) -> (r: i64)
    ensures
        r == (a as int) % (FX_ONE as int),
        0 <= r < FX_ONE,
{
    let m = a % FX_ONE;
    if m < 0 {
        m + FX_ONE
    } else {
        m
    }
}

/// A buffer index reduced into `[0, n)` by wrapping, Euclidean style.
pub fn wrap_index(seg: i64, n: i64) -> (r: i64)
    requires
        n > 0,
    ensures
        r == (seg as int) % (n as int),
        0 <= r < n,
{
    let m = seg % n;
    proof {
        let s = seg as int;
        let nn = n as int;
        if s < 0 {
            let qq = (-s) / nn;
            let kk = (-s) % nn;
            vstd::arithmetic::div_mod::lemma_fundamental_div_mod(-s, nn);
            vstd::arithmetic::div_mod::lemma_mod_division_less_than_divisor(-s, nn);
            assert(m == -kk);
            if kk == 0 {
                assert(s == (-qq) * nn + 0) by (nonlinear_arith)
                    requires
                        -s == nn * qq + kk,
                        kk == 0,
                ;
                vstd::arithmetic::div_mod::lemma_fundamental_div_mod_converse(s, nn, -qq, 0);
            } else {
                assert(s == (-qq - 1) * nn + (nn - kk)) by (nonlinear_arith)
                    requires
                        -s == nn * qq + kk,
                ;
                vstd::arithmetic::div_mod::lemma_fundamental_div_mod_converse(
                    s,
                    nn,
                    -qq - 1,
                    nn - kk,
                );
            }
        } else {
            vstd::arithmetic::div_mod::lemma_mod_division_less_than_divisor(s, nn);
        }
    }
    if m < 0 {
        m + n
    } else {
        m
    }
}

/// The largest pixel count a buffer may have: keeps a pixel's scaled
/// position inside the fixed-point range.
pub const MAX_PIXELS: usize = 0x40000000;

/// The normalized position of pixel `ix` on a strip of `size` pixels.
pub open spec fn pix_pos(ix: int, size: int) -> int
    recommends
        size > 0,
{
    (ix * FX_ONE) / size
}

/// The normalized position of pixel `ix` on a strip of `size` pixels.
pub fn fx_pixel_pos(ix: usize, size: usize) -> (r: i64)
    requires
        0 < size <= MAX_PIXELS,
        ix < size,
    ensures
        r == pix_pos(ix as int, size as int),
{
    ((ix as i64) * FX_ONE) / (size as i64)
}

/// Two to the power `k`.
pub open spec fn pow2(k: nat) -> int
    decreases k,
{
    if k == 0 {
        1
    } else {
        2 * pow2((k - 1) as nat)
    }
}

/// Powers of two are positive.
pub proof fn lemma_pow2_pos(k: nat)
    ensures
        pow2(k) >= 1,
    decreases k,
{
    if k > 0 {
        lemma_pow2_pos((k - 1) as nat);
    }
}

/// The quadratic curve standing for `2^(-f)` on one unit interval:
/// `1 - (11/16)f + (3/16)f^2`, exact at 0 (giving 1) and at 1 (giving 1/2).
pub open spec fn exp2_frac_spec(f: int) -> int {
    sat64(
        FX_ONE - div_trunc(f * 45056, FX_ONE as int) + div_trunc(
            div_trunc(f * f, FX_ONE as int) * 12288,
            FX_ONE as int,
        ),
    )
}

/// The exact value of `fx_exp2_neg`: the fractional curve, halved once per
/// whole unit of the exponent; seventeen halvings of a one-unit value reach
/// zero.
pub open spec fn exp2_neg_spec(t: int) -> int
    recommends
        t >= 0,
{
    if t / (FX_ONE as int) >= 17 {
        0
    } else {
        exp2_frac_spec(t % (FX_ONE as int)) / pow2((t / (FX_ONE as int)) as nat)
    }
}

/// The decay multiplier for one frame: `2^(-t)` for a nonnegative fixed
/// point exponent `t`, as the piecewise-quadratic curve `exp2_neg_spec`.
/// The result always lies in `[0, FX_ONE]`, and a zero exponent gives
/// exactly 1.
pub fn fx_exp2_neg(t: i64) -> (r: i64)
    requires
        t >= 0,
    ensures
        r == exp2_neg_spec(t as int),
        0 <= r <= FX_ONE,
        t == 0 ==> r == FX_ONE,
{
    let n = t / FX_ONE;
    let f = t % FX_ONE;
    proof {
        assert(f * 45056 <= 65536 * 45056) by (nonlinear_arith)
            requires
                0 <= f <= 65536,
        ;
        assert(0 <= f * f <= 65536 * 65536) by (nonlinear_arith)
            requires
                0 <= f <= 65536,
        ;
        vstd::arithmetic::div_mod::lemma_div_is_ordered(f * f, 65536int * 65536, 65536);
        vstd::arithmetic::div_mod::lemma_div_pos_is_pos(f * f, 65536);
        assert((65536int * 65536) / 65536 == 65536);
        assert(((f * f) / 65536) * 12288 <= 65536 * 12288) by (nonlinear_arith)
            requires
                0 <= (f * f) / 65536 <= 65536,
        ;
        assert(((f * f) / 65536) * 12288 >= 0) by (nonlinear_arith)
            requires
                0 <= (f * f) / 65536,
        ;
    }
    let lin = (f * 45056) / FX_ONE;
    let quad = (((f * f) / FX_ONE) * 12288) / FX_ONE;
    let mut base = FX_ONE - lin + quad;
    proof {
        lemma_exp2_frac_range(f as int);
        assert(base == exp2_frac_spec(f as int));
    }
    if n >= 17 {
        return 0;
    }
    let mut k: i64 = 0;
    while k < n
        invariant
            0 <= k <= n < 17,
            0 <= base <= FX_ONE,
            base == exp2_frac_spec((t as int) % (FX_ONE as int)) / pow2(k as nat),
        decreases n - k,
    {
        proof {
            lemma_pow2_pos(k as nat);
            lemma_exp2_frac_range((t as int) % (FX_ONE as int));
            vstd::arithmetic::div_mod::lemma_div_denominator(
                exp2_frac_spec((t as int) % (FX_ONE as int)),
                pow2(k as nat),
                2,
            );
            assert(pow2((k + 1) as nat) == 2 * pow2(k as nat));
            assert(pow2(k as nat) * 2 == 2 * pow2(k as nat)) by (nonlinear_arith);
        }
        base = base / 2;
        k = k + 1;
    }
    base
}

/// The fractional decay curve stays within `[3/16, 1]` of a unit on the
/// unit interval.
proof fn lemma_exp2_frac_range(f: int)
    requires
        0 <= f <= FX_ONE,
    ensures
        0 < exp2_frac_spec(f) <= FX_ONE,
        exp2_frac_spec(f) == FX_ONE - div_trunc(f * 45056, FX_ONE as int) + div_trunc(
            div_trunc(f * f, FX_ONE as int) * 12288,
            FX_ONE as int,
        ),
{
    let lin = div_trunc(f * 45056, FX_ONE as int);
    let ff = div_trunc(f * f, FX_ONE as int);
    let quad = div_trunc(ff * 12288, FX_ONE as int);
    assert(0 <= f * 45056 <= 65536 * 45056) by (nonlinear_arith)
        requires
            0 <= f <= 65536,
    ;
    assert(0 <= f * f <= 65536 * 65536) by (nonlinear_arith)
        requires
            0 <= f <= 65536,
    ;
    assert(0 <= ff * 12288 <= 65536 * 12288) by (nonlinear_arith)
        requires
            0 <= ff <= 65536,
    ;
    // the quadratic term never outweighs the linear one: f*f <= f*65536,
    // so ff <= f, and 12288 <= 45056
    assert(f * f <= f * 65536) by (nonlinear_arith)
        requires
            0 <= f <= 65536,
    ;
    vstd::arithmetic::div_mod::lemma_div_is_ordered(f * f, f * 65536, 65536);
    assert((f * 65536) / 65536 == f) by {
        vstd::arithmetic::div_mod::lemma_div_multiples_vanish(f, 65536);
        assert(f * 65536 == 65536 * f) by (nonlinear_arith);
    }
    assert(ff * 12288 <= f * 12288) by (nonlinear_arith)
        requires
            ff <= f,
    ;
    assert(f * 12288 <= f * 45056) by (nonlinear_arith)
        requires
            f >= 0,
    ;
    vstd::arithmetic::div_mod::lemma_div_is_ordered(ff * 12288, f * 45056, 65536);
}

/// A decay multiplier at most 1 can only shrink a nonnegative signal.
pub proof fn lemma_decay_shrinks(x: int, m: int)
    requires
        x >= 0,
        0 <= m <= FX_ONE,
    ensures
        0 <= fx_mul_spec(x, m) <= x,
{
    assert(0 <= x * m <= x * 65536) by (nonlinear_arith)
        requires
            x >= 0,
            0 <= m <= 65536,
    ;
    vstd::arithmetic::div_mod::lemma_div_is_ordered(x * m, x * 65536, 65536);
    assert((x * 65536) / 65536 == x) by {
        vstd::arithmetic::div_mod::lemma_div_multiples_vanish(x, 65536);
        assert(x * 65536 == 65536 * x) by (nonlinear_arith);
    }
    vstd::arithmetic::div_mod::lemma_div_pos_is_pos(x * m, 65536);
}

/// A buffer of `n` copies of one signal value.
pub fn filled_buf(n: usize, v: i64) -> (r: Vec<i64>)
    ensures
        r@.len() == n,
        forall|i: int| 0 <= i < n ==> r@[i] == v,
{
    let mut r: Vec<i64> = Vec::new();
    let mut i: usize = 0;
    while i < n
        invariant
            i <= n,
            r@.len() == i,
            forall|j: int| 0 <= j < i ==> r@[j] == v,
        decreases n - i,
    {
        r.push(v);
        i = i + 1;
    }
    r
}

/// The exact value of `fx_lerp`: `a` blended toward `b` by the fraction `f`,
/// as the sum `a*(1-f) + b*f`.
pub open spec fn fx_lerp_spec(a: int, b: int, f: int) -> int {
    sat64(fx_mul_spec(a, sat64(FX_ONE - f)) + fx_mul_spec(b, f))
}

/// Linear interpolation between two signals.
pub fn fx_lerp(a: i64, b: i64, f: i64) -> (r: i64)
    ensures
        r == fx_lerp_spec(a as int, b as int, f as int),
{
    let inv = fx_sub(FX_ONE, f);
    fx_add(fx_mul(a, inv), fx_mul(b, f))
}

} // verus!
