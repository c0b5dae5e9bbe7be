//! Fixed-point arithmetic used by the effect chain.
//!
//! Samples and filter coefficients are carried as signed integers in
//! millionths of a unit, so a full-scale audio sample is `SCALE` and a
//! filter coefficient of one is `SCALE`. All rounding truncates toward
//! zero, and every stored value is clamped into `[-SAMPLE_LIMIT,
//! SAMPLE_LIMIT]` so that the recursions can never overflow.

use vstd::arithmetic::div_mod::lemma_div_is_ordered;
use vstd::math::abs;
use vstd::prelude::*;

verus! {

/// One unit (a full-scale sample, or a coefficient of one), in millionths.
pub const SCALE: i64 = 1_000_000;

/// Hard magnitude bound on every stored sample and history register.
pub const SAMPLE_LIMIT: i64 = 1_099_511_627_776;

/// Hard magnitude bound on every normalized filter coefficient.
pub const COEFF_LIMIT: i64 = 64_000_000;

/// Magnitude bound on the result of `mul_scaled` under its preconditions.
pub const MUL_SCALED_BOUND: i64 = 70_368_744_177_664;

/// Division truncating toward zero, as the hardware integer division does.
pub open spec fn div_trunc(a: int, b: int) -> int {
    if (a < 0) != (b < 0) {
        -((abs(a) / abs(b)) as int)
    } else {
        (abs(a) / abs(b)) as int
    }
}

/// Clamping into a closed interval.
pub open spec fn spec_clamp(v: int, lo: int, hi: int) -> int {
    if v < lo {
        lo
    } else if v > hi {
        hi
    } else {
        v
    }
}

/// Clamping into the storable sample range.
pub open spec fn spec_clamp_sample(v: int) -> int {
    spec_clamp(v, -SAMPLE_LIMIT as int, SAMPLE_LIMIT as int)
}

proof fn lemma_mul_abs_bound(a: int, b: int, abound: int, bbound: int)
    requires
        abs(a) <= abound,
        abs(b) <= bbound,
    ensures
        abs(a) * abs(b) <= abound * bbound,
        abs(a * b) == abs(a) * abs(b),
{
    assert(abs(a) * abs(b) <= abound * bbound) by (nonlinear_arith)
        requires
            abs(a) <= abound,
            abs(b) <= bbound,
            abs(a) >= 0,
            abs(b) >= 0,
    ;
    assert(abs(a * b) == abs(a) * abs(b)) by (nonlinear_arith);
}

/// `trunc(c * x / SCALE)`: scaled product of a coefficient and a sample.
pub fn mul_scaled(c: i64, x: i64) -> (r: i64)
    requires
        -COEFF_LIMIT <= c <= COEFF_LIMIT,
        -SAMPLE_LIMIT <= x <= SAMPLE_LIMIT,
    ensures
        r == div_trunc(c as int * x as int, SCALE as int),
        -MUL_SCALED_BOUND <= r <= MUL_SCALED_BOUND,
{
    proof {
        lemma_mul_abs_bound(c as int, x as int, COEFF_LIMIT as int, SAMPLE_LIMIT as int);
        assert(((c < 0) != (x < 0)) && c != 0 && x != 0 ==> (c as int) * (x as int) < 0)
            by (nonlinear_arith);
        assert(!((c < 0) != (x < 0)) ==> (c as int) * (x as int) >= 0) by (nonlinear_arith);
        assert(c == 0 || x == 0 ==> (c as int) * (x as int) == 0) by (nonlinear_arith);
    }
    let neg: bool = (c < 0) != (x < 0);
    let ca: u128 = if c >= 0 {
        c as u128
    } else {
        (-(c as i128)) as u128
    };
    let xa: u128 = if x >= 0 {
        x as u128
    } else {
        (-(x as i128)) as u128
    };
    proof {
        assert(ca == abs(c as int));
        assert(xa == abs(x as int));
        assert(ca as int * xa as int <= COEFF_LIMIT as int * SAMPLE_LIMIT as int);
    }
    let p: u128 = ca * xa;
    let q: u128 = p / 1_000_000u128;
    proof {
        assert(p == abs(c as int * x as int));
        lemma_div_is_ordered(
            p as int,
            COEFF_LIMIT as int * SAMPLE_LIMIT as int,
            1_000_000int,
        );
        assert((COEFF_LIMIT as int * SAMPLE_LIMIT as int) / 1_000_000int
            == MUL_SCALED_BOUND as int);
    }
    let qi: i64 = q as i64;
    if neg {
        -qi
    } else {
        qi
    }
}

/// `trunc(x * m / 1000)`: scaling by a factor carried in thousandths.
pub fn mul_milli(x: i64, m: i64) -> (r: i64)
    requires
        -4 * SAMPLE_LIMIT <= x <= 4 * SAMPLE_LIMIT,
        0 <= m <= 16_000,
    ensures
        r == div_trunc(x as int * m as int, 1000int),
        abs(r as int) <= abs(x as int) * 16,
{
    proof {
        lemma_mul_abs_bound(x as int, m as int, 4 * SAMPLE_LIMIT as int, 16_000int);
        lemma_mul_abs_bound(x as int, m as int, abs(x as int) as int, 16_000int);
        assert(x < 0 && m > 0 ==> (x as int) * (m as int) < 0) by (nonlinear_arith);
        assert(x >= 0 && m >= 0 ==> (x as int) * (m as int) >= 0) by (nonlinear_arith);
        assert(m == 0 ==> (x as int) * (m as int) == 0) by (nonlinear_arith);
    }
    let neg: bool = x < 0;
    let xa: u128 = if x >= 0 {
        x as u128
    } else {
        (-(x as i128)) as u128
    };
    let q: u128 = (xa * (m as u128)) / 1000u128;
    proof {
        assert(xa * (m as u128) == abs(x as int * m as int));
        lemma_div_is_ordered(
            (xa * (m as u128)) as int,
            abs(x as int) as int * 16_000,
            1000int,
        );
        assert((abs(x as int) as int * 16_000) / 1000int == abs(x as int) as int * 16)
            by (nonlinear_arith);
        lemma_div_is_ordered(
            (xa * (m as u128)) as int,
            4 * SAMPLE_LIMIT as int * 16_000,
            1000int,
        );
    }
    let qi: i64 = q as i64;
    if neg {
        -qi
    } else {
        qi
    }
}

/// Truncating division shrinks magnitudes: `|trunc(a / b)| * b <= |a|`.
pub proof fn lemma_div_trunc_mag(a: int, b: int)
    requires
        b > 0,
    ensures
        abs(div_trunc(a, b)) == abs(a) / (b as nat),
        abs(div_trunc(a, b)) * b <= abs(a),
        a >= 0 ==> div_trunc(a, b) >= 0,
        a <= 0 ==> div_trunc(a, b) <= 0,
{
    let q = (abs(a) / (b as nat)) as int;
    vstd::arithmetic::div_mod::lemma_fundamental_div_mod(abs(a) as int, b);
    vstd::arithmetic::div_mod::lemma_mod_bound(abs(a) as int, b);
    vstd::arithmetic::div_mod::lemma_div_pos_is_pos(abs(a) as int, b);
    assert(abs(a) as int == b * q + (abs(a) as int % b));
}

/// A truncated convex combination of two bounded values stays bounded:
/// the linear interpolation of two samples is itself a valid sample.
pub proof fn lemma_interp_bound(va: int, vb: int, f: int)
    requires
        -SAMPLE_LIMIT <= va <= SAMPLE_LIMIT,
        -SAMPLE_LIMIT <= vb <= SAMPLE_LIMIT,
        0 <= f <= SCALE,
    ensures
        -SAMPLE_LIMIT <= div_trunc(va * (SCALE - f), SCALE as int) + div_trunc(
            vb * f,
            SCALE as int,
        ) <= SAMPLE_LIMIT,
{
    let t1 = div_trunc(va * (SCALE as int - f), SCALE as int);
    let t2 = div_trunc(vb * f, SCALE as int);
    lemma_div_trunc_mag(va * (SCALE as int - f), SCALE as int);
    lemma_div_trunc_mag(vb * f, SCALE as int);
    lemma_mul_abs_bound(va, SCALE as int - f, SAMPLE_LIMIT as int, SCALE as int - f);
    lemma_mul_abs_bound(vb, f, SAMPLE_LIMIT as int, f);
    assert(abs(t1) * SCALE <= SAMPLE_LIMIT * (SCALE as int - f));
    assert(abs(t2) * SCALE <= SAMPLE_LIMIT * f);
    assert((abs(t1) + abs(t2)) * SCALE <= SAMPLE_LIMIT * SCALE) by (nonlinear_arith)
        requires
            abs(t1) * SCALE <= SAMPLE_LIMIT * (SCALE as int - f),
            abs(t2) * SCALE <= SAMPLE_LIMIT * f,
    ;
    assert(abs(t1) + abs(t2) <= SAMPLE_LIMIT) by (nonlinear_arith)
        requires
            (abs(t1) + abs(t2)) * SCALE <= SAMPLE_LIMIT * SCALE,
            SCALE == 1_000_000,
    ;
}

/// `trunc(excess * 1000 / ratio)` for a non-negative excess and a ratio
/// of at least one (carried in thousandths): the compressed excess never
/// exceeds the raw excess.
pub fn mul1000_div(excess: i64, ratio: i64) -> (r: i64)
    requires
        0 <= excess <= 4 * SAMPLE_LIMIT,
        1000 <= ratio <= 1_000_000,
    ensures
        r == div_trunc(excess as int * 1000, ratio as int),
        0 <= r <= excess,
{
    let q: u128 = (excess as u128 * 1000) / (ratio as u128);
    proof {
        let e = excess as int;
        vstd::arithmetic::div_mod::lemma_div_is_ordered_by_denominator(e * 1000, 1000, ratio as int);
        vstd::arithmetic::div_mod::lemma_div_multiples_vanish(e, 1000);
        assert(e * 1000 == 1000 * e);
        vstd::arithmetic::div_mod::lemma_div_pos_is_pos(e * 1000, ratio as int);
        assert(abs(e * 1000) == e * 1000);
    }
    q as i64
}

/// Wet/dry blend: the dry value moved toward the wet one by a ratio in
/// thousandths.
pub open spec fn spec_mix(dry: int, wet: int, m: int) -> int {
    dry + div_trunc((wet - dry) * m, 1000int)
}

/// Blends two samples; the result lies between them, so it stays a
/// valid sample.
pub fn mix_milli(dry: i64, wet: i64, m: i64) -> (r: i64)
    requires
        -SAMPLE_LIMIT <= dry <= SAMPLE_LIMIT,
        -SAMPLE_LIMIT <= wet <= SAMPLE_LIMIT,
        0 <= m <= 1000,
    ensures
        r == spec_mix(dry as int, wet as int, m as int),
        -SAMPLE_LIMIT <= r <= SAMPLE_LIMIT,
{
    let t = mul_milli(wet - dry, m);
    proof {
        let d = wet as int - dry as int;
        lemma_div_trunc_mag(d * m, 1000int);
        lemma_mul_abs_bound(d, m as int, abs(d) as int, 1000int);
        assert(abs(t as int) * 1000 <= abs(d) * 1000);
        assert(abs(t as int) <= abs(d)) by (nonlinear_arith)
            requires
                abs(t as int) * 1000 <= abs(d) * 1000,
        ;
        if d >= 0 {
            assert(d * m >= 0) by (nonlinear_arith)
                requires
                    d >= 0,
                    m >= 0,
            ;
        } else {
            assert(d * m <= 0) by (nonlinear_arith)
                requires
                    d < 0,
                    m >= 0,
            ;
        }
    }
    dry + t
}

/// Clamps a value into the storable sample range.
pub fn clamp_sample(v: i64) -> (r: i64)
    ensures
        r == spec_clamp_sample(v as int),
{
    if v < -SAMPLE_LIMIT {
        -SAMPLE_LIMIT
    } else if v > SAMPLE_LIMIT {
        SAMPLE_LIMIT
    } else {
        v
    }
}

} // verus!
