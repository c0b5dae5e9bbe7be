//! A second-order IIR filter section in fixed-point arithmetic.
//!
//! The section stores five normalized coefficients (the leading
//! denominator coefficient divided out) and two history registers per
//! channel, and runs the transposed-direct-form-II recursion. Channels
//! are fully independent: processing one touches only that channel's
//! registers.

use crate::fixed::COEFF_LIMIT;
use crate::fixed::SAMPLE_LIMIT;
use crate::fixed::SCALE;
use crate::fixed::clamp_sample;
use crate::fixed::div_trunc;
use crate::fixed::mul_scaled;
use crate::fixed::spec_clamp_sample;
use vstd::prelude::*;

verus! {

/// Normalized filter coefficients, in millionths.
pub struct Coeffs {
    pub b0: i64,
    pub b1: i64,
    pub b2: i64,
    pub a1: i64,
    pub a2: i64,
}

impl Coeffs {
    /// Every coefficient is small enough for the recursion's arithmetic.
    pub open spec fn wf(self) -> bool {
        &&& -COEFF_LIMIT <= self.b0 <= COEFF_LIMIT
        &&& -COEFF_LIMIT <= self.b1 <= COEFF_LIMIT
        &&& -COEFF_LIMIT <= self.b2 <= COEFF_LIMIT
        &&& -COEFF_LIMIT <= self.a1 <= COEFF_LIMIT
        &&& -COEFF_LIMIT <= self.a2 <= COEFF_LIMIT
    }
}

/// One biquad section with per-channel history registers.
pub struct Biquad {
    pub c: Coeffs,
    pub z1: Vec<i64>,
    pub z2: Vec<i64>,
}

/// The section's mathematical state: coefficients and the history
/// registers as sequences.
#[verifier::ext_equal]
pub ghost struct BiquadModel {
    pub c: Coeffs,
    pub z1: Seq<i64>,
    pub z2: Seq<i64>,
}

/// One recursion step on the mathematical state: the state with the
/// channel's registers moved, and the emitted sample.
pub open spec fn spec_biquad_step(b: BiquadModel, ch: int, x: int) -> (BiquadModel, int) {
    let y = spec_biquad_y(b.c, b.z1[ch] as int, x);
    (
        BiquadModel {
            c: b.c,
            z1: b.z1.update(ch, spec_biquad_z1(b.c, b.z2[ch] as int, x, y) as i64),
            z2: b.z2.update(ch, spec_biquad_z2(b.c, x, y) as i64),
        },
        y,
    )
}

/// The output of one recursion step.
pub open spec fn spec_biquad_y(c: Coeffs, z1: int, x: int) -> int {
    spec_clamp_sample(div_trunc(c.b0 as int * x, SCALE as int) + z1)
}

/// The first history register after one recursion step.
pub open spec fn spec_biquad_z1(c: Coeffs, z2: int, x: int, y: int) -> int {
    spec_clamp_sample(
        div_trunc(c.b1 as int * x, SCALE as int) - div_trunc(c.a1 as int * y, SCALE as int) + z2,
    )
}

/// The second history register after one recursion step.
pub open spec fn spec_biquad_z2(c: Coeffs, x: int, y: int) -> int {
    spec_clamp_sample(
        div_trunc(c.b2 as int * x, SCALE as int) - div_trunc(c.a2 as int * y, SCALE as int),
    )
}

impl Biquad {
    /// Number of channels the section was built for.
    pub open spec fn channels(self) -> nat {
        self.z1@.len()
    }

    /// The mathematical state of the section.
    pub open spec fn model(self) -> BiquadModel {
        BiquadModel { c: self.c, z1: self.z1@, z2: self.z2@ }
    }

    pub open spec fn wf(self) -> bool {
        &&& self.c.wf()
        &&& self.z1@.len() == self.z2@.len()
        &&& forall|i: int|
            0 <= i < self.z1@.len() ==> -SAMPLE_LIMIT <= #[trigger] self.z1@[i] <= SAMPLE_LIMIT
        &&& forall|i: int|
            0 <= i < self.z2@.len() ==> -SAMPLE_LIMIT <= #[trigger] self.z2@[i] <= SAMPLE_LIMIT
    }

    /// All history registers hold silence.
    pub open spec fn history_is_zero(self) -> bool {
        &&& forall|i: int| 0 <= i < self.z1@.len() ==> #[trigger] self.z1@[i] == 0
        &&& forall|i: int| 0 <= i < self.z2@.len() ==> #[trigger] self.z2@[i] == 0
    }

    /// Builds a section from raw transfer-function coefficients, dividing
    /// the leading denominator coefficient out of the other five, with
    /// history registers reset to silence.
    pub fn new_normalized(
        b0: i64,
        b1: i64,
        b2: i64,
        a0: i64,
        a1: i64,
        a2: i64,
        channels: usize,
    ) -> (r: Biquad)
        requires
            a0 != 0,
            spec_raw_coeffs_ok(b0 as int, b1 as int, b2 as int, a0 as int, a1 as int, a2 as int),
        ensures
            r.wf(),
            r.channels() == channels,
            r.history_is_zero(),
            r.c.b0 == spec_normalize(b0 as int, a0 as int),
            r.c.b1 == spec_normalize(b1 as int, a0 as int),
            r.c.b2 == spec_normalize(b2 as int, a0 as int),
            r.c.a1 == spec_normalize(a1 as int, a0 as int),
            r.c.a2 == spec_normalize(a2 as int, a0 as int),
    {
        let c = Coeffs {
            b0: normalize_coeff(b0, a0),
            b1: normalize_coeff(b1, a0),
            b2: normalize_coeff(b2, a0),
            a1: normalize_coeff(a1, a0),
            a2: normalize_coeff(a2, a0),
        };
        let mut z1: Vec<i64> = Vec::new();
        let mut z2: Vec<i64> = Vec::new();
        let mut i: usize = 0;
        while i < channels
            invariant
                i <= channels,
                z1@.len() == i,
                z2@.len() == i,
                forall|j: int| 0 <= j < i ==> #[trigger] z1@[j] == 0,
                forall|j: int| 0 <= j < i ==> #[trigger] z2@[j] == 0,
            decreases channels - i,
        {
            z1.push(0);
            z2.push(0);
            i = i + 1;
        }
        Biquad { c, z1, z2 }
    }

    /// Runs one step of the recursion for one channel, returning the
    /// filtered sample and updating only that channel's registers.
    pub fn process(&mut self, channel: usize, x: i64) -> (y: i64)
        requires
            old(self).wf(),
            channel < old(self).channels(),
            -SAMPLE_LIMIT <= x <= SAMPLE_LIMIT,
        ensures
            final(self).wf(),
            final(self).c == old(self).c,
            final(self).channels() == old(self).channels(),
            y == spec_biquad_y(old(self).c, old(self).z1@[channel as int] as int, x as int),
            final(self).z1@ == old(self).z1@.update(
                channel as int,
                spec_biquad_z1(old(self).c, old(self).z2@[channel as int] as int, x as int, y as int) as i64,
            ),
            final(self).z2@ == old(self).z2@.update(
                channel as int,
                spec_biquad_z2(old(self).c, x as int, y as int) as i64,
            ),
            final(self).model() == spec_biquad_step(old(self).model(), channel as int, x as int).0,
            y == spec_biquad_step(old(self).model(), channel as int, x as int).1,
            -SAMPLE_LIMIT <= y <= SAMPLE_LIMIT,
    {
        let y = clamp_sample(mul_scaled(self.c.b0, x) + self.z1[channel]);
        let z1_new = clamp_sample(
            mul_scaled(self.c.b1, x) - mul_scaled(self.c.a1, y) + self.z2[channel],
        );
        let z2_new = clamp_sample(mul_scaled(self.c.b2, x) - mul_scaled(self.c.a2, y));
        self.z1[channel] = z1_new;
        self.z2[channel] = z2_new;
        y
    }
}

/// The raw coefficients a section may be built from: each numerator and
/// denominator entry is at most 64 times the leading one in magnitude, so
/// the normalized coefficients stay within `COEFF_LIMIT`.
pub open spec fn spec_raw_coeffs_ok(b0: int, b1: int, b2: int, a0: int, a1: int, a2: int) -> bool {
    &&& vstd::math::abs(b0) <= 64 * vstd::math::abs(a0)
    &&& vstd::math::abs(b1) <= 64 * vstd::math::abs(a0)
    &&& vstd::math::abs(b2) <= 64 * vstd::math::abs(a0)
    &&& vstd::math::abs(a1) <= 64 * vstd::math::abs(a0)
    &&& vstd::math::abs(a2) <= 64 * vstd::math::abs(a0)
    &&& vstd::math::abs(a0) <= 0x4000_0000_0000
}

/// A coefficient divided by the leading denominator coefficient, scaled
/// to millionths and truncated toward zero.
pub open spec fn spec_normalize(c: int, a0: int) -> int {
    div_trunc(c * SCALE as int, a0)
}

/// The leading denominator coefficient always normalizes to exactly
/// one (the fixed-point unit): the stored section's recursion is the
/// transfer function with its denominator lead divided out.
pub proof fn lemma_leading_normalizes_to_unit(a0: int)
    requires
        a0 != 0,
    ensures
        spec_normalize(a0, a0) == SCALE,
{
    if a0 > 0 {
        vstd::arithmetic::div_mod::lemma_div_multiples_vanish(SCALE as int, a0);
    } else {
        vstd::arithmetic::div_mod::lemma_div_multiples_vanish(SCALE as int, -a0);
        assert((-a0) * (SCALE as int) == -(a0 * (SCALE as int)));
    }
}

/// `trunc(c * SCALE / a0)` for raw coefficients within `spec_raw_coeffs_ok`.
fn normalize_coeff(c: i64, a0: i64) -> (r: i64)
    requires
        a0 != 0,
        vstd::math::abs(c as int) <= 64 * vstd::math::abs(a0 as int),
        vstd::math::abs(a0 as int) <= 0x4000_0000_0000,
    ensures
        r == spec_normalize(c as int, a0 as int),
        -COEFF_LIMIT <= r <= COEFF_LIMIT,
{
    proof {
        assert(SCALE == 1_000_000);
        assert(vstd::math::abs(c as int * 1_000_000) == vstd::math::abs(c as int) * 1_000_000)
            by (nonlinear_arith);
        assert(c < 0 ==> c as int * 1_000_000 < 0) by (nonlinear_arith);
        assert(c > 0 ==> c as int * 1_000_000 > 0) by (nonlinear_arith);
        assert(c == 0 ==> c as int * 1_000_000 == 0) by (nonlinear_arith);
    }
    let neg: bool = (c < 0) != (a0 < 0);
    let ca: u128 = if c >= 0 {
        c as u128
    } else {
        (-(c as i128)) as u128
    };
    let aa: u128 = if a0 >= 0 {
        a0 as u128
    } else {
        (-(a0 as i128)) as u128
    };
    let num: u128 = ca * 1_000_000u128;
    let q: u128 = num / aa;
    proof {
        assert(ca == vstd::math::abs(c as int));
        assert(aa == vstd::math::abs(a0 as int));
        assert(num == vstd::math::abs(c as int) * 1_000_000);
        lemma_normalize_bound(c as int, a0 as int, q as int);
    }
    let qi: i64 = q as i64;
    if neg {
        -qi
    } else {
        qi
    }
}

/// The quotient of `|c| * SCALE / |a0|` stays within `COEFF_LIMIT` when
/// `|c| <= 64 * |a0|`.
proof fn lemma_normalize_bound(c: int, a0: int, q: int)
    requires
        a0 != 0,
        vstd::math::abs(c) <= 64 * vstd::math::abs(a0),
        q == (vstd::math::abs(c) * 1_000_000) as int / vstd::math::abs(a0) as int,
    ensures
        0 <= q <= COEFF_LIMIT,
{
    let ca = vstd::math::abs(c) as int;
    let aa = vstd::math::abs(a0) as int;
    assert(ca * 1_000_000 <= 64 * aa * 1_000_000) by (nonlinear_arith)
        requires
            ca <= 64 * aa,
            ca >= 0,
    ;
    vstd::arithmetic::div_mod::lemma_div_is_ordered(ca * 1_000_000, 64 * aa * 1_000_000, aa);
    assert(64 * aa * 1_000_000 / aa == 64_000_000) by (nonlinear_arith)
        requires
            aa > 0,
    ;
    vstd::arithmetic::div_mod::lemma_div_pos_is_pos(ca * 1_000_000, aa);
}

} // verus!
