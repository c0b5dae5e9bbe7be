//! The effects processor: chain assembly and per-sample processing.
//!
//! A preset, a sample rate and a channel count fully determine the chain:
//! an ordered subset of high-pass, low-shelf, peaking and low-pass biquad
//! stages, an optional warble stage with a wet/dry mix, and scalar
//! dynamics parameters. The trigonometric evaluation of the audio-EQ
//! transfer functions is floating-point work done by the caller; it hands
//! the raw (un-normalized) coefficients in, and everything from
//! normalization onward is fixed-point arithmetic owned here.
//!
//! Processing a buffer happens in two verified passes around one caller
//! pass: the filter/warble pass below, then the caller's soft-saturation
//! (a scaled hyperbolic tangent, again floating point), then the dynamics
//! pass (compressor, makeup gain, hard clamp).

use crate::biquad::Biquad;
use crate::biquad::BiquadModel;
use crate::biquad::spec_biquad_step;
use crate::biquad::spec_normalize;
use crate::biquad::spec_raw_coeffs_ok;
use crate::fixed::SAMPLE_LIMIT;
use crate::fixed::SCALE;
use crate::fixed::div_trunc;
use crate::fixed::mix_milli;
use crate::fixed::mul1000_div;
use crate::fixed::mul_milli;
use crate::fixed::spec_clamp;
use crate::fixed::spec_mix;
use crate::preset::AudioFxPreset;
use crate::warble::MAX_CHANNELS;
use crate::warble::MAX_SAMPLE_RATE;
use crate::warble::MIN_SAMPLE_RATE;
use crate::warble::Warble;
use crate::warble::WarbleModel;
use crate::warble::spec_warble_advance;
use crate::warble::spec_warble_step;
use vstd::math::abs;
use vstd::prelude::*;

verus! {

/// Placement of one biquad stage: centre or cutoff frequency in
/// centihertz, quality (or shelf slope) in thousandths, and gain in
/// tenths of a decibel (zero where the response takes no gain).
pub struct FilterParams {
    pub freq_centihz: u64,
    pub q_milli: u32,
    pub gain_decidb: i32,
}

/// Everything a (preset, sample rate, channels) triple determines:
/// which stages exist and every scalar tuning value.
pub struct PresetParams {
    pub high_pass: Option<FilterParams>,
    pub low_shelf: Option<FilterParams>,
    pub mid_peak: Option<FilterParams>,
    pub low_pass: Option<FilterParams>,
    pub has_warble: bool,
    /// Warble wet/dry mix, in thousandths.
    pub warble_mix_milli: i64,
    /// Saturation drive, in thousandths.
    pub drive_milli: i64,
    /// Saturation wet/dry mix, in thousandths.
    pub saturation_mix_milli: i64,
    /// Compressor threshold, in millionths of full scale.
    pub comp_threshold_micro: i64,
    /// Compressor ratio, in thousandths.
    pub comp_ratio_milli: i64,
    /// Post-compressor makeup gain, in thousandths.
    pub makeup_milli: i64,
}

impl PresetParams {
    /// Scalar ranges every preset's table satisfies; the dynamics
    /// arithmetic relies on them.
    pub open spec fn ranges_ok(self) -> bool {
        &&& 0 <= self.warble_mix_milli <= 1000
        &&& 1000 <= self.drive_milli <= 16_000
        &&& 0 <= self.saturation_mix_milli <= 1000
        &&& 100 <= self.comp_threshold_micro <= SCALE
        &&& 1000 <= self.comp_ratio_milli <= 100_000
        &&& 1000 <= self.makeup_milli <= 16_000
    }
}

/// The per-preset tuning table.
pub open spec fn spec_params_for(preset: AudioFxPreset) -> PresetParams {
    match preset {
        AudioFxPreset::Clean => PresetParams {
            high_pass: None,
            low_shelf: None,
            mid_peak: None,
            low_pass: None,
            has_warble: false,
            warble_mix_milli: 0,
            drive_milli: 1000,
            saturation_mix_milli: 0,
            comp_threshold_micro: 1_000_000,
            comp_ratio_milli: 1000,
            makeup_milli: 1000,
        },
        AudioFxPreset::Cassette => PresetParams {
            high_pass: Some(FilterParams { freq_centihz: 10_500, q_milli: 750, gain_decidb: 0 }),
            low_shelf: None,
            mid_peak: Some(
                FilterParams { freq_centihz: 270_000, q_milli: 1350, gain_decidb: -31i32 },
            ),
            low_pass: Some(FilterParams { freq_centihz: 640_000, q_milli: 820, gain_decidb: 0 }),
            has_warble: true,
            warble_mix_milli: 620,
            drive_milli: 1420,
            saturation_mix_milli: 440,
            comp_threshold_micro: 670_000,
            comp_ratio_milli: 2900,
            makeup_milli: 1080,
        },
        AudioFxPreset::Bass => PresetParams {
            high_pass: Some(FilterParams { freq_centihz: 2600, q_milli: 707, gain_decidb: 0 }),
            low_shelf: Some(FilterParams { freq_centihz: 9200, q_milli: 900, gain_decidb: 74 }),
            mid_peak: Some(FilterParams { freq_centihz: 18_000, q_milli: 1000, gain_decidb: 40 }),
            low_pass: Some(FilterParams { freq_centihz: 930_000, q_milli: 800, gain_decidb: 0 }),
            has_warble: false,
            warble_mix_milli: 0,
            drive_milli: 1360,
            saturation_mix_milli: 360,
            comp_threshold_micro: 690_000,
            comp_ratio_milli: 2700,
            makeup_milli: 1100,
        },
        AudioFxPreset::Radio => PresetParams {
            high_pass: Some(FilterParams { freq_centihz: 36_000, q_milli: 850, gain_decidb: 0 }),
            low_shelf: None,
            mid_peak: Some(FilterParams { freq_centihz: 175_000, q_milli: 1650, gain_decidb: 68 }),
            low_pass: Some(FilterParams { freq_centihz: 330_000, q_milli: 850, gain_decidb: 0 }),
            has_warble: false,
            warble_mix_milli: 0,
            drive_milli: 1800,
            saturation_mix_milli: 580,
            comp_threshold_micro: 600_000,
            comp_ratio_milli: 4400,
            makeup_milli: 1120,
        },
    }
}

/// Every preset's table satisfies the scalar ranges.
pub proof fn lemma_params_ranges(preset: AudioFxPreset)
    ensures
        spec_params_for(preset).ranges_ok(),
{
}

/// The tuning table for a preset.
pub fn params_for(preset: AudioFxPreset) -> (p: PresetParams)
    ensures
        p == spec_params_for(preset),
{
    match preset {
        AudioFxPreset::Clean => PresetParams {
            high_pass: None,
            low_shelf: None,
            mid_peak: None,
            low_pass: None,
            has_warble: false,
            warble_mix_milli: 0,
            drive_milli: 1000,
            saturation_mix_milli: 0,
            comp_threshold_micro: 1_000_000,
            comp_ratio_milli: 1000,
            makeup_milli: 1000,
        },
        AudioFxPreset::Cassette => PresetParams {
            high_pass: Some(FilterParams { freq_centihz: 10_500, q_milli: 750, gain_decidb: 0 }),
            low_shelf: None,
            mid_peak: Some(
                FilterParams { freq_centihz: 270_000, q_milli: 1350, gain_decidb: -31i32 },
            ),
            low_pass: Some(FilterParams { freq_centihz: 640_000, q_milli: 820, gain_decidb: 0 }),
            has_warble: true,
            warble_mix_milli: 620,
            drive_milli: 1420,
            saturation_mix_milli: 440,
            comp_threshold_micro: 670_000,
            comp_ratio_milli: 2900,
            makeup_milli: 1080,
        },
        AudioFxPreset::Bass => PresetParams {
            high_pass: Some(FilterParams { freq_centihz: 2600, q_milli: 707, gain_decidb: 0 }),
            low_shelf: Some(FilterParams { freq_centihz: 9200, q_milli: 900, gain_decidb: 74 }),
            mid_peak: Some(FilterParams { freq_centihz: 18_000, q_milli: 1000, gain_decidb: 40 }),
            low_pass: Some(FilterParams { freq_centihz: 930_000, q_milli: 800, gain_decidb: 0 }),
            has_warble: false,
            warble_mix_milli: 0,
            drive_milli: 1360,
            saturation_mix_milli: 360,
            comp_threshold_micro: 690_000,
            comp_ratio_milli: 2700,
            makeup_milli: 1100,
        },
        AudioFxPreset::Radio => PresetParams {
            high_pass: Some(FilterParams { freq_centihz: 36_000, q_milli: 850, gain_decidb: 0 }),
            low_shelf: None,
            mid_peak: Some(FilterParams { freq_centihz: 175_000, q_milli: 1650, gain_decidb: 68 }),
            low_pass: Some(FilterParams { freq_centihz: 330_000, q_milli: 850, gain_decidb: 0 }),
            has_warble: false,
            warble_mix_milli: 0,
            drive_milli: 1800,
            saturation_mix_milli: 580,
            comp_threshold_micro: 600_000,
            comp_ratio_milli: 4400,
            makeup_milli: 1120,
        },
    }
}

/// A stage frequency clamped into the stable range: at least 20 Hz and
/// at most 0.45 times the sample rate (both in centihertz here).
pub open spec fn spec_clamped_freq_centihz(f: int, sr: int) -> int {
    spec_clamp(f, 2000, 45 * sr)
}

/// Clamps a stage frequency into the stable range for a sample rate.
pub fn clamped_freq_centihz(freq_centihz: u64, sample_rate: u32) -> (r: u64)
    requires
        sample_rate >= MIN_SAMPLE_RATE,
    ensures
        r == spec_clamped_freq_centihz(freq_centihz as int, sample_rate as int),
{
    let hi: u64 = 45 * sample_rate as u64;
    if freq_centihz < 2000 {
        2000
    } else if freq_centihz > hi {
        hi
    } else {
        freq_centihz
    }
}

/// Any frequency at or above the Nyquist-safe bound clamps to the same
/// value as the bound itself: requesting too high a cutoff behaves as
/// requesting exactly the bound.
pub proof fn lemma_freq_clamp_saturates(f: int, sr: int)
    requires
        sr >= MIN_SAMPLE_RATE,
        f >= 45 * sr,
    ensures
        spec_clamped_freq_centihz(f, sr) == spec_clamped_freq_centihz(45 * sr, sr),
{
}

/// A quality or slope value floored at one tenth.
pub fn floored_q_milli(q_milli: u32) -> (r: u32)
    ensures
        r == if q_milli < 100 {
            100int
        } else {
            q_milli as int
        },
{
    if q_milli < 100 {
        100
    } else {
        q_milli
    }
}

/// The hard-knee, memoryless compressor: magnitudes at most the
/// threshold pass unchanged; above it the excess is divided by the
/// ratio, with the sign preserved.
pub open spec fn spec_compress(x: int, threshold: int, ratio: int) -> int {
    let t = if threshold < 100 {
        100int
    } else {
        threshold
    };
    let r = if ratio < 1000 {
        1000int
    } else {
        ratio
    };
    let m = abs(x) as int;
    if m <= t {
        x
    } else {
        let c = t + div_trunc((m - t) * 1000, r);
        if x < 0 {
            -c
        } else {
            c
        }
    }
}

/// One sample through the compressor.
pub fn compress(x: i64, threshold_micro: i64, ratio_milli: i64) -> (y: i64)
    requires
        -SAMPLE_LIMIT <= x <= SAMPLE_LIMIT,
        0 <= threshold_micro <= SCALE,
        0 <= ratio_milli <= 100_000,
    ensures
        y == spec_compress(x as int, threshold_micro as int, ratio_milli as int),
        abs(y as int) <= abs(x as int),
        abs(x as int) <= threshold_micro && threshold_micro >= 100 ==> y == x,
{
    let t: i64 = if threshold_micro < 100 {
        100
    } else {
        threshold_micro
    };
    let r: i64 = if ratio_milli < 1000 {
        1000
    } else {
        ratio_milli
    };
    let m: i64 = if x < 0 {
        -x
    } else {
        x
    };
    if m <= t {
        x
    } else {
        let c: i64 = t + mul1000_div(m - t, r);
        if x < 0 {
            -c
        } else {
            c
        }
    }
}

/// At a ratio of two, a sample at twice an even threshold compresses to
/// exactly one and a half thresholds in magnitude. (For an odd
/// threshold the truncating division lands one millionth of full scale
/// below that; every preset's threshold is even.)
pub proof fn lemma_compress_double_threshold(t: int)
    requires
        100 <= t <= SCALE,
        t % 2 == 0,
    ensures
        spec_compress(2 * t, t, 2000) == t + t / 2,
        spec_compress(-2 * t, t, 2000) == -(t + t / 2),
{
    assert(abs(2 * t) == 2 * t);
    assert(abs(-2 * t) == 2 * t);
    let k = t / 2;
    assert(t == 2 * k);
    assert(t * 1000 == k * 2000);
    vstd::arithmetic::div_mod::lemma_div_by_multiple(k, 2000);
    assert(abs(t * 1000) == t * 1000);
    assert(div_trunc(t * 1000, 2000) == k);
}

/// One sample through the dynamics tail: compressor, makeup gain, and
/// the hard clamp to full scale.
pub open spec fn spec_finish_sample(x: int, threshold: int, ratio: int, makeup: int) -> int {
    spec_clamp(
        div_trunc(spec_compress(x, threshold, ratio) * makeup, 1000int),
        -SCALE as int,
        SCALE as int,
    )
}

/// One sample through the dynamics tail; the result always lies within
/// full scale.
pub fn finish_sample(x: i64, threshold_micro: i64, ratio_milli: i64, makeup_milli: i64) -> (y: i64)
    requires
        -SAMPLE_LIMIT <= x <= SAMPLE_LIMIT,
        0 <= threshold_micro <= SCALE,
        0 <= ratio_milli <= 100_000,
        0 <= makeup_milli <= 16_000,
    ensures
        y == spec_finish_sample(
            x as int,
            threshold_micro as int,
            ratio_milli as int,
            makeup_milli as int,
        ),
        -SCALE <= y <= SCALE,
{
    let compressed = compress(x, threshold_micro, ratio_milli);
    let boosted = mul_milli(compressed, makeup_milli);
    if boosted < -SCALE {
        -SCALE
    } else if boosted > SCALE {
        SCALE
    } else {
        boosted
    }
}

/// Raw (un-normalized) transfer-function coefficients for one stage, in
/// millionths, as the caller's coefficient evaluation produces them.
pub struct RawCoeffs {
    pub b0: i64,
    pub b1: i64,
    pub b2: i64,
    pub a0: i64,
    pub a1: i64,
    pub a2: i64,
}

impl RawCoeffs {
    /// The set can be normalized: the leading denominator coefficient is
    /// nonzero and dominates the others enough for the fixed-point range.
    pub open spec fn ok(self) -> bool {
        &&& self.a0 != 0
        &&& spec_raw_coeffs_ok(
            self.b0 as int,
            self.b1 as int,
            self.b2 as int,
            self.a0 as int,
            self.a1 as int,
            self.a2 as int,
        )
    }

    /// Checks `ok` at run time, for callers that compute coefficients
    /// outside verified code.
    pub fn is_ok(&self) -> (r: bool)
        ensures
            r == self.ok(),
    {
        if self.a0 == 0 {
            return false;
        }
        let aa: i128 = if self.a0 < 0 {
            -(self.a0 as i128)
        } else {
            self.a0 as i128
        };
        if aa > 0x4000_0000_0000 {
            return false;
        }
        let limit: i128 = 64 * aa;
        let vals: [i64; 5] = [self.b0, self.b1, self.b2, self.a1, self.a2];
        let mut k: usize = 0;
        let mut good: bool = true;
        while k < 5
            invariant
                k <= 5,
                vals@[0] == self.b0 && vals@[1] == self.b1 && vals@[2] == self.b2 && vals@[3]
                    == self.a1 && vals@[4] == self.a2,
                limit == 64 * abs(self.a0 as int),
                good == forall|j: int|
                    0 <= j < k ==> abs(#[trigger] vals@[j] as int) <= 64 * abs(self.a0 as int),
            decreases 5 - k,
        {
            let v = vals[k];
            let va: i128 = if v < 0 {
                -(v as i128)
            } else {
                v as i128
            };
            good = good && va <= limit;
            k = k + 1;
        }
        if good {
            proof {
                assert(abs(self.b0 as int) <= 64 * abs(self.a0 as int)) by {
                    assert(vals@[0] == self.b0);
                }
                assert(abs(self.b1 as int) <= 64 * abs(self.a0 as int)) by {
                    assert(vals@[1] == self.b1);
                }
                assert(abs(self.b2 as int) <= 64 * abs(self.a0 as int)) by {
                    assert(vals@[2] == self.b2);
                }
                assert(abs(self.a1 as int) <= 64 * abs(self.a0 as int)) by {
                    assert(vals@[3] == self.a1);
                }
                assert(abs(self.a2 as int) <= 64 * abs(self.a0 as int)) by {
                    assert(vals@[4] == self.a2);
                }
            }
        }
        good
    }
}

/// The raw coefficient sets for every stage of one chain build.
pub struct ChainCoeffs {
    pub high_pass: Option<RawCoeffs>,
    pub low_shelf: Option<RawCoeffs>,
    pub mid_peak: Option<RawCoeffs>,
    pub low_pass: Option<RawCoeffs>,
}

impl ChainCoeffs {
    /// The sets line up with a parameter table: a set is supplied exactly
    /// for the stages the table plans, and each supplied set is usable.
    pub open spec fn spec_matches(self, p: PresetParams) -> bool {
        &&& (self.high_pass is Some) == (p.high_pass is Some)
        &&& (self.low_shelf is Some) == (p.low_shelf is Some)
        &&& (self.mid_peak is Some) == (p.mid_peak is Some)
        &&& (self.low_pass is Some) == (p.low_pass is Some)
        &&& (self.high_pass is Some ==> self.high_pass->0.ok())
        &&& (self.low_shelf is Some ==> self.low_shelf->0.ok())
        &&& (self.mid_peak is Some ==> self.mid_peak->0.ok())
        &&& (self.low_pass is Some ==> self.low_pass->0.ok())
    }

    /// Checks `spec_matches` at run time.
    pub fn matches_params(&self, p: &PresetParams) -> (r: bool)
        ensures
            r == self.spec_matches(*p),
    {
        let hp = match (&self.high_pass, &p.high_pass) {
            (Some(rc), Some(_)) => rc.is_ok(),
            (None, None) => true,
            _ => false,
        };
        let ls = match (&self.low_shelf, &p.low_shelf) {
            (Some(rc), Some(_)) => rc.is_ok(),
            (None, None) => true,
            _ => false,
        };
        let pk = match (&self.mid_peak, &p.mid_peak) {
            (Some(rc), Some(_)) => rc.is_ok(),
            (None, None) => true,
            _ => false,
        };
        let lp = match (&self.low_pass, &p.low_pass) {
            (Some(rc), Some(_)) => rc.is_ok(),
            (None, None) => true,
            _ => false,
        };
        hp && ls && pk && lp
    }

    /// No stages at all: what the identity preset's chain is built from.
    pub fn empty() -> (c: ChainCoeffs)
        ensures
            c.high_pass is None,
            c.low_shelf is None,
            c.mid_peak is None,
            c.low_pass is None,
    {
        ChainCoeffs { high_pass: None, low_shelf: None, mid_peak: None, low_pass: None }
    }
}

/// A built stage agrees with the raw set it came from: present exactly
/// when a set was supplied, silent history, and each coefficient the
/// normalization of the raw one.
pub open spec fn spec_stage_matches(stage: Option<Biquad>, raw: Option<RawCoeffs>, channels: int) -> bool {
    match stage {
        None => raw is None,
        Some(b) => {
            &&& raw is Some
            &&& b.wf()
            &&& b.channels() == channels
            &&& b.history_is_zero()
            &&& b.c.b0 == spec_normalize(raw->0.b0 as int, raw->0.a0 as int)
            &&& b.c.b1 == spec_normalize(raw->0.b1 as int, raw->0.a0 as int)
            &&& b.c.b2 == spec_normalize(raw->0.b2 as int, raw->0.a0 as int)
            &&& b.c.a1 == spec_normalize(raw->0.a1 as int, raw->0.a0 as int)
            &&& b.c.a2 == spec_normalize(raw->0.a2 as int, raw->0.a0 as int)
        },
    }
}

/// A warble stage fresh from a rebuild: present exactly when the preset
/// asks for one, silent, with the standard tuning for the sample rate.
pub open spec fn spec_fresh_warble(w: Option<Warble>, has: bool, rate: int, ch: int) -> bool {
    match w {
        None => has == false,
        Some(wb) => {
            &&& has
            &&& wb.wf()
            &&& wb.buffer_is_zero()
            &&& wb.sample_rate == rate
            &&& wb.channels == ch
            &&& wb.write_index == 0
            &&& wb.frame_count == 0
            &&& wb.base_delay_micro == rate * crate::warble::BASE_DELAY_MICROSECONDS
            &&& wb.wow_depth_micro == rate * crate::warble::WOW_DEPTH_MICROSECONDS
            &&& wb.flutter_depth_micro == rate * crate::warble::FLUTTER_DEPTH_MICROSECONDS
        },
    }
}

/// The processor's mathematical state: the chain's stages and tuning
/// with every history as a sequence.
#[verifier::ext_equal]
pub ghost struct FxModel {
    pub preset: AudioFxPreset,
    pub sample_rate: u32,
    pub channels: usize,
    pub high_pass: Option<BiquadModel>,
    pub low_shelf: Option<BiquadModel>,
    pub mid_peak: Option<BiquadModel>,
    pub low_pass: Option<BiquadModel>,
    pub warble: Option<WarbleModel>,
    pub params: PresetParams,
}

/// What an optional stage emits for one input: absent stages pass the
/// sample through untouched.
pub open spec fn spec_stage_out(stage: Option<BiquadModel>, ch: int, x: int) -> int {
    match stage {
        None => x,
        Some(b) => spec_biquad_step(b, ch, x).1,
    }
}

/// An optional stage after one recursion step on one channel.
pub open spec fn spec_stage_step(stage: Option<BiquadModel>, ch: int, x: int) -> Option<
    BiquadModel,
> {
    match stage {
        None => None,
        Some(b) => Some(spec_biquad_step(b, ch, x).0),
    }
}

/// One whole per-sample step of the chain on the mathematical state:
/// the four filter stages in their fixed order, then the warble wet/dry
/// blend, with every history moved accordingly.
pub open spec fn spec_fx_step(m: FxModel, ch: int, x: int, wow_sin: int, flutter_sin: int) -> (
    FxModel,
    int,
) {
    let v1 = spec_stage_out(m.high_pass, ch, x);
    let v2 = spec_stage_out(m.low_shelf, ch, v1);
    let v3 = spec_stage_out(m.mid_peak, ch, v2);
    let v4 = spec_stage_out(m.low_pass, ch, v3);
    let stages = FxModel {
        high_pass: spec_stage_step(m.high_pass, ch, x),
        low_shelf: spec_stage_step(m.low_shelf, ch, v1),
        mid_peak: spec_stage_step(m.mid_peak, ch, v2),
        low_pass: spec_stage_step(m.low_pass, ch, v3),
        ..m
    };
    match m.warble {
        None => (stages, v4),
        Some(w) => {
            let ws = spec_warble_step(w, ch, v4 as i64, wow_sin, flutter_sin);
            (
                FxModel { warble: Some(ws.0), ..stages },
                spec_mix(v4, ws.1, m.params.warble_mix_milli as int),
            )
        },
    }
}

/// The per-frame step: the warble cursor and phase advance, where the
/// chain has a warble stage.
pub open spec fn spec_fx_advance(m: FxModel) -> FxModel {
    match m.warble {
        None => m,
        Some(w) => FxModel { warble: Some(spec_warble_advance(w)), ..m },
    }
}

/// The filter-and-warble pass folded over the first `k` samples of a
/// buffer of interleaved frames: every sample steps the chain on its
/// own channel, in order, and the warble cursor advances after each
/// frame's last sample (the final, possibly partial frame included).
/// Yields the state after those samples together with their outputs.
pub open spec fn spec_chain_fold(
    m0: FxModel,
    input: Seq<i64>,
    lfo: Seq<(i64, i64)>,
    k: int,
) -> (FxModel, Seq<i64>)
    decreases k,
{
    if k <= 0 {
        (m0, Seq::empty())
    } else {
        let prev = spec_chain_fold(m0, input, lfo, k - 1);
        let j = k - 1;
        let ch = j % (m0.channels as int);
        let fr = j / (m0.channels as int);
        let step = spec_fx_step(prev.0, ch, input[j] as int, lfo[fr].0 as int, lfo[fr].1 as int);
        let after = if ch == m0.channels - 1 || j == input.len() - 1 {
            spec_fx_advance(step.0)
        } else {
            step.0
        };
        (after, prev.1.push(step.1 as i64))
    }
}

/// Builds one optional stage from its raw set.
fn build_stage(raw: &Option<RawCoeffs>, channels: usize) -> (s: Option<Biquad>)
    requires
        raw is Some ==> raw->0.ok(),
    ensures
        spec_stage_matches(s, *raw, channels as int),
{
    match raw {
        Some(rc) => Some(
            Biquad::new_normalized(rc.b0, rc.b1, rc.b2, rc.a0, rc.a1, rc.a2, channels),
        ),
        None => None,
    }
}

/// The sample rate a chain is actually built for.
pub open spec fn spec_norm_rate(r: int) -> int {
    spec_clamp(r, MIN_SAMPLE_RATE as int, MAX_SAMPLE_RATE as int)
}

/// The channel count a chain is actually built for.
pub open spec fn spec_norm_channels(c: int) -> int {
    spec_clamp(c, 1, MAX_CHANNELS as int)
}

/// The effects processor: the chain built for the active configuration.
pub struct FxProcessor {
    pub preset: AudioFxPreset,
    pub sample_rate: u32,
    pub channels: usize,
    pub high_pass: Option<Biquad>,
    pub low_shelf: Option<Biquad>,
    pub mid_peak: Option<Biquad>,
    pub low_pass: Option<Biquad>,
    pub warble: Option<Warble>,
    pub params: PresetParams,
}

impl FxProcessor {
    pub open spec fn wf(self) -> bool {
        &&& MIN_SAMPLE_RATE <= self.sample_rate <= MAX_SAMPLE_RATE
        &&& 1 <= self.channels <= MAX_CHANNELS
        &&& self.params == spec_params_for(self.preset)
        &&& self.params.ranges_ok()
        &&& match self.high_pass {
            Some(b) => b.wf() && b.channels() == self.channels && self.params.high_pass is Some,
            None => self.params.high_pass is None,
        }
        &&& match self.low_shelf {
            Some(b) => b.wf() && b.channels() == self.channels && self.params.low_shelf is Some,
            None => self.params.low_shelf is None,
        }
        &&& match self.mid_peak {
            Some(b) => b.wf() && b.channels() == self.channels && self.params.mid_peak is Some,
            None => self.params.mid_peak is None,
        }
        &&& match self.low_pass {
            Some(b) => b.wf() && b.channels() == self.channels && self.params.low_pass is Some,
            None => self.params.low_pass is None,
        }
        &&& match self.warble {
            Some(w) => w.wf() && w.channels == self.channels && w.sample_rate == self.sample_rate
                && self.params.has_warble,
            None => !self.params.has_warble,
        }
    }

    /// A configuration change is pending exactly when one of the three
    /// inputs differs from the active chain's.
    pub open spec fn spec_needs_rebuild(
        self,
        rate: int,
        channels: int,
        preset: AudioFxPreset,
    ) -> bool {
        ||| self.sample_rate != spec_norm_rate(rate)
        ||| self.channels != spec_norm_channels(channels)
        ||| self.preset != preset
    }

    /// The state a rebuild leaves behind.
    pub open spec fn spec_rebuilt_from(
        self,
        rate: int,
        channels: int,
        preset: AudioFxPreset,
        coeffs: ChainCoeffs,
    ) -> bool {
        &&& self.preset == preset
        &&& self.sample_rate == spec_norm_rate(rate)
        &&& self.channels == spec_norm_channels(channels)
        &&& self.params == spec_params_for(preset)
        &&& spec_stage_matches(self.high_pass, coeffs.high_pass, self.channels as int)
        &&& spec_stage_matches(self.low_shelf, coeffs.low_shelf, self.channels as int)
        &&& spec_stage_matches(self.mid_peak, coeffs.mid_peak, self.channels as int)
        &&& spec_stage_matches(self.low_pass, coeffs.low_pass, self.channels as int)
        &&& spec_fresh_warble(
            self.warble,
            self.params.has_warble,
            self.sample_rate as int,
            self.channels as int,
        )
    }

    /// A fresh processor: the identity preset at the default 44.1 kHz
    /// stereo configuration, with no stages built.
    pub fn new() -> (p: FxProcessor)
        ensures
            p.wf(),
            p.preset == AudioFxPreset::Clean,
            p.sample_rate == 44_100,
            p.channels == 2,
            p.spec_rebuilt_from(44_100, 2, AudioFxPreset::Clean, ChainCoeffs {
                high_pass: None,
                low_shelf: None,
                mid_peak: None,
                low_pass: None,
            }),
    {
        FxProcessor {
            preset: AudioFxPreset::Clean,
            sample_rate: 44_100,
            channels: 2,
            high_pass: None,
            low_shelf: None,
            mid_peak: None,
            low_pass: None,
            warble: None,
            params: params_for(AudioFxPreset::Clean),
        }
    }

    /// Whether `configure` with these inputs would rebuild the chain.
    pub fn needs_rebuild(&self, sample_rate: u32, channels: usize, preset: AudioFxPreset) -> (r:
        bool)
        ensures
            r == self.spec_needs_rebuild(sample_rate as int, channels as int, preset),
    {
        let nr = norm_rate(sample_rate);
        let nc = norm_channels(channels);
        self.sample_rate != nr || self.channels != nc || !(self.preset == preset)
    }

    /// Adopts a configuration. Identical inputs leave the processor — in
    /// particular every filter history — untouched; any change rebuilds
    /// the chain from the supplied raw coefficients, with every history
    /// register reset to silence. Rates and channel counts are first
    /// clamped into the fixed-point model's supported ranges (8 kHz to
    /// 384 kHz, up to 64 channels), so two requests that clamp to the
    /// same configuration count as identical.
    pub fn configure(
        &mut self,
        sample_rate: u32,
        channels: usize,
        preset: AudioFxPreset,
        coeffs: &ChainCoeffs,
    )
        requires
            old(self).wf(),
            coeffs.spec_matches(spec_params_for(preset)),
        ensures
            final(self).wf(),
            !old(self).spec_needs_rebuild(sample_rate as int, channels as int, preset)
                ==> *final(self) == *old(self),
            old(self).spec_needs_rebuild(sample_rate as int, channels as int, preset)
                ==> final(self).spec_rebuilt_from(
                sample_rate as int,
                channels as int,
                preset,
                *coeffs,
            ),
    {
        let nr = norm_rate(sample_rate);
        let nc = norm_channels(channels);
        if self.sample_rate == nr && self.channels == nc && self.preset == preset {
            return ;
        }
        self.preset = preset;
        self.sample_rate = nr;
        self.channels = nc;
        self.params = params_for(preset);
        self.high_pass = build_stage(&coeffs.high_pass, nc);
        self.low_shelf = build_stage(&coeffs.low_shelf, nc);
        self.mid_peak = build_stage(&coeffs.mid_peak, nc);
        self.low_pass = build_stage(&coeffs.low_pass, nc);
        self.warble = if self.params.has_warble {
            Some(Warble::new(nr, nc))
        } else {
            None
        };
    }
}

impl FxProcessor {
    /// The mathematical state of the processor.
    pub open spec fn model(self) -> FxModel {
        FxModel {
            preset: self.preset,
            sample_rate: self.sample_rate,
            channels: self.channels,
            high_pass: match self.high_pass {
                Some(b) => Some(b.model()),
                None => None,
            },
            low_shelf: match self.low_shelf {
                Some(b) => Some(b.model()),
                None => None,
            },
            mid_peak: match self.mid_peak {
                Some(b) => Some(b.model()),
                None => None,
            },
            low_pass: match self.low_pass {
                Some(b) => Some(b.model()),
                None => None,
            },
            warble: match self.warble {
                Some(w) => Some(w.model()),
                None => None,
            },
            params: self.params,
        }
    }

    /// The fields a buffer pass never touches stay put; only filter and
    /// warble histories move.
    pub open spec fn spec_same_chain(self, other: FxProcessor) -> bool {
        &&& self.preset == other.preset
        &&& self.sample_rate == other.sample_rate
        &&& self.channels == other.channels
        &&& self.params == other.params
        &&& (self.high_pass is Some) == (other.high_pass is Some)
        &&& (self.low_shelf is Some) == (other.low_shelf is Some)
        &&& (self.mid_peak is Some) == (other.mid_peak is Some)
        &&& (self.low_pass is Some) == (other.low_pass is Some)
        &&& (self.warble is Some) == (other.warble is Some)
        &&& (self.high_pass is Some ==> self.high_pass->0.c == other.high_pass->0.c)
        &&& (self.low_shelf is Some ==> self.low_shelf->0.c == other.low_shelf->0.c)
        &&& (self.mid_peak is Some ==> self.mid_peak->0.c == other.mid_peak->0.c)
        &&& (self.low_pass is Some ==> self.low_pass->0.c == other.low_pass->0.c)
        &&& (self.warble is Some ==> {
            let a = self.warble->0;
            let b = other.warble->0;
            &&& a.sample_rate == b.sample_rate
            &&& a.channels == b.channels
            &&& a.buf_len == b.buf_len
            &&& a.base_delay_micro == b.base_delay_micro
            &&& a.wow_depth_micro == b.wow_depth_micro
            &&& a.flutter_depth_micro == b.flutter_depth_micro
        })
    }

    /// One sample pushed through a whole per-sample step of the chain
    /// (filters in their fixed order, then the warble blend), exactly as
    /// the buffer pass does for each sample in turn.
    pub fn process_sample(&mut self, channel: usize, x: i64, wow_sin: i64, flutter_sin: i64) -> (y:
        i64)
        requires
            old(self).wf(),
            channel < old(self).channels,
            -SAMPLE_LIMIT <= x <= SAMPLE_LIMIT,
            -SCALE <= wow_sin <= SCALE,
            -SCALE <= flutter_sin <= SCALE,
        ensures
            final(self).wf(),
            final(self).spec_same_chain(*old(self)),
            -SAMPLE_LIMIT <= y <= SAMPLE_LIMIT,
            final(self).model() == spec_fx_step(
                old(self).model(),
                channel as int,
                x as int,
                wow_sin as int,
                flutter_sin as int,
            ).0,
            y as int == spec_fx_step(
                old(self).model(),
                channel as int,
                x as int,
                wow_sin as int,
                flutter_sin as int,
            ).1,
    {
        let mut v = x;
        match self.high_pass.as_mut() {
            Some(f) => {
                v = f.process(channel, v);
            },
            None => {},
        }
        match self.low_shelf.as_mut() {
            Some(f) => {
                v = f.process(channel, v);
            },
            None => {},
        }
        match self.mid_peak.as_mut() {
            Some(f) => {
                v = f.process(channel, v);
            },
            None => {},
        }
        match self.low_pass.as_mut() {
            Some(f) => {
                v = f.process(channel, v);
            },
            None => {},
        }
        let mix = self.params.warble_mix_milli;
        match self.warble.as_mut() {
            Some(w) => {
                let wet = w.process(channel, v, wow_sin, flutter_sin);
                v = mix_milli(v, wet, mix);
            },
            None => {},
        }
        proof {
            let step = spec_fx_step(
                old(self).model(),
                channel as int,
                x as int,
                wow_sin as int,
                flutter_sin as int,
            );
            assert(self.model() =~= step.0);
        }
        v
    }

    /// The filter-and-warble pass over a buffer of interleaved frames.
    ///
    /// Under the identity preset the buffer and the processor are left
    /// bit-for-bit untouched, whatever the buffer holds. Under every
    /// other preset the pass is exactly `spec_chain_fold` of the
    /// starting state: each sample runs, in order, through the chain's
    /// high-pass, low-shelf, peaking and low-pass stages (absent ones
    /// are skipped) and then the warble wet/dry blend, and the shared
    /// warble cursor advances once per frame — so both the output
    /// buffer and the processor's whole end state are pinned. `lfo`
    /// supplies each frame's two oscillator values in fixed-point;
    /// callers without a warble stage may hand zeros.
    pub fn process_buffer(&mut self, samples: &mut Vec<i64>, lfo: &Vec<(i64, i64)>)
        requires
            old(self).wf(),
            forall|k: int|
                0 <= k < old(samples)@.len() ==> -SAMPLE_LIMIT <= #[trigger] old(samples)@[k]
                    <= SAMPLE_LIMIT,
            old(samples)@.len() <= lfo@.len() * old(self).channels,
            forall|k: int|
                0 <= k < lfo@.len() ==> -SCALE <= (#[trigger] lfo@[k]).0 <= SCALE && -SCALE
                    <= lfo@[k].1 <= SCALE,
        ensures
            final(self).wf(),
            final(self).spec_same_chain(*old(self)),
            final(samples)@.len() == old(samples)@.len(),
            forall|k: int|
                0 <= k < final(samples)@.len() ==> -SAMPLE_LIMIT <= #[trigger] final(samples)@[k]
                    <= SAMPLE_LIMIT,
            old(self).preset == AudioFxPreset::Clean ==> final(samples)@ == old(samples)@
                && *final(self) == *old(self),
            old(self).preset != AudioFxPreset::Clean ==> final(self).model() == spec_chain_fold(
                old(self).model(),
                old(samples)@,
                lfo@,
                old(samples)@.len() as int,
            ).0,
            old(self).preset != AudioFxPreset::Clean ==> final(samples)@ == spec_chain_fold(
                old(self).model(),
                old(samples)@,
                lfo@,
                old(samples)@.len() as int,
            ).1,
    {
        if self.preset == AudioFxPreset::Clean {
            return ;
        }
        let channels = self.channels;
        let len = samples.len();
        let mut i: usize = 0;
        while i < len
            invariant
                self.wf(),
                self.spec_same_chain(*old(self)),
                channels == self.channels,
                channels == old(self).model().channels,
                1 <= channels,
                len == samples@.len(),
                samples@.len() == old(samples)@.len(),
                i <= len,
                len <= lfo@.len() * channels,
                forall|k: int|
                    i <= k < samples@.len() ==> #[trigger] samples@[k] == old(samples)@[k],
                forall|k: int|
                    0 <= k < samples@.len() ==> -SAMPLE_LIMIT <= #[trigger] samples@[k]
                        <= SAMPLE_LIMIT,
                forall|k: int|
                    0 <= k < lfo@.len() ==> -SCALE <= (#[trigger] lfo@[k]).0 <= SCALE && -SCALE
                        <= lfo@[k].1 <= SCALE,
                self.model() == spec_chain_fold(
                    old(self).model(),
                    old(samples)@,
                    lfo@,
                    i as int,
                ).0,
                samples@.take(i as int) == spec_chain_fold(
                    old(self).model(),
                    old(samples)@,
                    lfo@,
                    i as int,
                ).1,
            decreases len - i,
        {
            proof {
                let chn = channels as int;
                vstd::arithmetic::div_mod::lemma_mod_bound(i as int, chn);
                vstd::arithmetic::div_mod::lemma_div_pos_is_pos(i as int, chn);
                assert(lfo@.len() * chn - 1 == chn * (lfo@.len() - 1) + (chn - 1))
                    by (nonlinear_arith);
                vstd::arithmetic::div_mod::lemma_div_is_ordered(
                    i as int,
                    lfo@.len() * chn - 1,
                    chn,
                );
                vstd::arithmetic::div_mod::lemma_div_multiples_vanish_fancy(
                    lfo@.len() - 1,
                    chn - 1,
                    chn,
                );
            }
            let frame: usize = i / channels;
            let ch: usize = i % channels;
            let pair = lfo[frame];
            let x = samples[i];
            let v = self.process_sample(ch, x, pair.0, pair.1);
            samples[i] = v;
            if ch + 1 == channels || i + 1 == len {
                match self.warble.as_mut() {
                    Some(w) => {
                        w.advance_frame();
                    },
                    None => {},
                }
            }
            proof {
                let m0 = old(self).model();
                let inp = old(samples)@;
                let fprev = spec_chain_fold(m0, inp, lfo@, i as int);
                let step = spec_fx_step(
                    fprev.0,
                    i as int % (channels as int),
                    inp[i as int] as int,
                    lfo@[i as int / (channels as int)].0 as int,
                    lfo@[i as int / (channels as int)].1 as int,
                );
                if ch + 1 == channels || i + 1 == len {
                    assert(self.model() =~= spec_fx_advance(step.0));
                } else {
                    assert(self.model() =~= step.0);
                }
                assert(samples@.take(i as int) =~= fprev.1);
                assert(samples@.take(i as int + 1) =~= fprev.1.push(v));
            }
            i = i + 1;
        }
        proof {
            assert(samples@.take(len as int) =~= samples@);
        }
    }

    /// The dynamics pass over a buffer: compressor, makeup gain, and the
    /// hard clamp to full scale, sample by sample.
    ///
    /// Under the identity preset the buffer is untouched. Otherwise every
    /// output sample equals `spec_finish_sample` of the input sample and
    /// in particular lies within `[-SCALE, SCALE]` — full scale.
    pub fn finish_buffer(&self, samples: &mut Vec<i64>)
        requires
            self.wf(),
            forall|k: int|
                0 <= k < old(samples)@.len() ==> -SAMPLE_LIMIT <= #[trigger] old(samples)@[k]
                    <= SAMPLE_LIMIT,
        ensures
            final(samples)@.len() == old(samples)@.len(),
            self.preset == AudioFxPreset::Clean ==> final(samples)@ == old(samples)@,
            self.preset != AudioFxPreset::Clean ==> forall|k: int|
                0 <= k < final(samples)@.len() ==> #[trigger] final(samples)@[k]
                    == spec_finish_sample(
                    old(samples)@[k] as int,
                    self.params.comp_threshold_micro as int,
                    self.params.comp_ratio_milli as int,
                    self.params.makeup_milli as int,
                ),
            self.preset != AudioFxPreset::Clean ==> forall|k: int|
                0 <= k < final(samples)@.len() ==> -SCALE <= #[trigger] final(samples)@[k]
                    <= SCALE,
    {
        if self.preset == AudioFxPreset::Clean {
            return ;
        }
        let threshold = self.params.comp_threshold_micro;
        let ratio = self.params.comp_ratio_milli;
        let makeup = self.params.makeup_milli;
        let len = samples.len();
        let mut i: usize = 0;
        while i < len
            invariant
                len == samples@.len(),
                samples@.len() == old(samples)@.len(),
                i <= len,
                100 <= threshold <= SCALE,
                1000 <= ratio <= 100_000,
                1000 <= makeup <= 16_000,
                forall|k: int|
                    i <= k < samples@.len() ==> #[trigger] samples@[k] == old(samples)@[k],
                forall|k: int|
                    0 <= k < old(samples)@.len() ==> -SAMPLE_LIMIT <= #[trigger] old(samples)@[k]
                        <= SAMPLE_LIMIT,
                forall|k: int|
                    0 <= k < i ==> #[trigger] samples@[k] == spec_finish_sample(
                        old(samples)@[k] as int,
                        threshold as int,
                        ratio as int,
                        makeup as int,
                    ),
                forall|k: int| 0 <= k < i ==> -SCALE <= #[trigger] samples@[k] <= SCALE,
            decreases len - i,
        {
            let y = finish_sample(samples[i], threshold, ratio, makeup);
            samples[i] = y;
            i = i + 1;
        }
    }
}

/// Clamps a requested sample rate into the supported range.
pub fn norm_rate(sample_rate: u32) -> (r: u32)
    ensures
        r == spec_norm_rate(sample_rate as int),
{
    if sample_rate < MIN_SAMPLE_RATE {
        MIN_SAMPLE_RATE
    } else if sample_rate > MAX_SAMPLE_RATE {
        MAX_SAMPLE_RATE
    } else {
        sample_rate
    }
}

/// Clamps a requested channel count into the supported range.
pub fn norm_channels(channels: usize) -> (r: usize)
    ensures
        r == spec_norm_channels(channels as int),
{
    if channels < 1 {
        1
    } else if channels > MAX_CHANNELS {
        MAX_CHANNELS
    } else {
        channels
    }
}

} // verus!
