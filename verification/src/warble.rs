//! A modulated fractional-delay line producing tape-style pitch wobble.
//!
//! Each channel owns a circular history buffer. A read position trails
//! the shared write cursor by a base delay plus two low-frequency
//! oscillator contributions; the fractional read is linearly interpolated
//! between its two neighbouring samples. The oscillators themselves are
//! sinusoids of the accumulated phase; their instantaneous values enter
//! here as plain fixed-point arguments, so the delay-line arithmetic is
//! independent of how they are evaluated.

use crate::fixed::SAMPLE_LIMIT;
use crate::fixed::SCALE;
use crate::fixed::div_trunc;
use crate::fixed::lemma_interp_bound;
use crate::fixed::mul_scaled;
use crate::fixed::spec_clamp;
use vstd::prelude::*;

verus! {

/// Wow oscillator rate, in millihertz.
pub const WOW_RATE_MILLIHZ: u32 = 520;

/// Flutter oscillator rate, in millihertz.
pub const FLUTTER_RATE_MILLIHZ: u32 = 6_700;

/// Phase offset of the flutter oscillator, in milliradians.
pub const FLUTTER_PHASE_MILLIRAD: u32 = 700;

/// Base delay, wow depth and flutter depth, in microseconds.
pub const BASE_DELAY_MICROSECONDS: u32 = 3_900;

pub const WOW_DEPTH_MICROSECONDS: u32 = 950;

pub const FLUTTER_DEPTH_MICROSECONDS: u32 = 220;

/// Lowest and highest sample rate the delay line is sized for.
pub const MIN_SAMPLE_RATE: u32 = 8_000;

pub const MAX_SAMPLE_RATE: u32 = 384_000;

/// Most channels a delay line will be built for.
pub const MAX_CHANNELS: usize = 64;

/// Length of each channel's circular buffer: eight milliseconds of
/// samples, a small guard, and a floor of 32.
pub open spec fn spec_warble_buf_len(sr: int) -> int {
    let ideal = (8 * sr + 999) / 1000 + 4;
    if ideal < 32 {
        32
    } else {
        ideal
    }
}

/// For every supported sample rate the buffer length lies in `[32, 3076]`.
pub proof fn lemma_buf_len_bound(sr: int)
    requires
        MIN_SAMPLE_RATE <= sr <= MAX_SAMPLE_RATE,
    ensures
        32 <= spec_warble_buf_len(sr) <= 3076,
{
    vstd::arithmetic::div_mod::lemma_div_is_ordered(8 * sr + 999, (8 * 384_000 + 999) as int, 1000);
    vstd::arithmetic::div_mod::lemma_div_is_ordered(0, 8 * sr + 999, 1000);
    assert((8 * 384_000 + 999) / 1000 == 3072);
}

/// The modulated delay line.
pub struct Warble {
    /// Sample rate the line was built for, in hertz.
    pub sample_rate: u32,
    /// Number of interleaved channels.
    pub channels: usize,
    /// Length of each channel's circular buffer, in samples.
    pub buf_len: usize,
    /// All channels' buffers, channel-major, in fixed-point sample units.
    pub buffer: Vec<i64>,
    /// Shared write cursor, advanced once per frame.
    pub write_index: usize,
    /// Frames seen since the last phase wrap; the oscillator phase in
    /// seconds is this count divided by the sample rate.
    pub frame_count: u64,
    /// Centre of the modulated delay, in micro-samples.
    pub base_delay_micro: i64,
    /// Wow oscillator amplitude, in micro-samples.
    pub wow_depth_micro: i64,
    /// Flutter oscillator amplitude, in micro-samples.
    pub flutter_depth_micro: i64,
}

/// The delay line's mathematical state: every tuning field and the
/// history as a sequence.
#[verifier::ext_equal]
pub ghost struct WarbleModel {
    pub sample_rate: u32,
    pub channels: usize,
    pub buf_len: usize,
    pub buffer: Seq<i64>,
    pub write_index: usize,
    pub frame_count: u64,
    pub base_delay_micro: i64,
    pub wow_depth_micro: i64,
    pub flutter_depth_micro: i64,
}

/// The delay for the current frame over the mathematical state: the
/// base delay plus the two scaled oscillator values, clamped so the
/// read position keeps clear of the write cursor.
pub open spec fn spec_model_delay(w: WarbleModel, wow_sin: int, flutter_sin: int) -> int {
    let raw = w.base_delay_micro + div_trunc(wow_sin * w.wow_depth_micro, SCALE as int)
        + div_trunc(flutter_sin * w.flutter_depth_micro, SCALE as int);
    let hi = if w.buf_len >= 4 {
        (w.buf_len - 3) * SCALE
    } else {
        SCALE as int
    };
    spec_clamp(raw, SCALE as int, hi)
}

/// Where the delayed read lands, in micro-samples from the start of the
/// circular buffer.
pub open spec fn spec_model_read_pos(w: WarbleModel, delay: int) -> int {
    (w.write_index * SCALE - delay) % (w.buf_len * SCALE)
}

/// The linearly interpolated sample at a fractional position.
pub open spec fn spec_model_read_interp(w: WarbleModel, channel: int, pos: int) -> int {
    let index_a = pos / (SCALE as int);
    let frac = pos % (SCALE as int);
    let index_b = if index_a + 1 == w.buf_len {
        0int
    } else {
        index_a + 1
    };
    let va = w.buffer[channel * w.buf_len + index_a];
    let vb = w.buffer[channel * w.buf_len + index_b];
    div_trunc(va * (SCALE - frac), SCALE as int) + div_trunc(vb * frac, SCALE as int)
}

/// One per-sample step on the mathematical state: the state with the
/// input written at the cursor, and the emitted (delayed) sample. A
/// channel the line was not built for passes through untouched.
pub open spec fn spec_warble_step(
    w: WarbleModel,
    ch: int,
    x: i64,
    wow_sin: int,
    flutter_sin: int,
) -> (WarbleModel, int) {
    if ch >= w.channels {
        (w, x as int)
    } else {
        let delay = spec_model_delay(w, wow_sin, flutter_sin);
        let pos = spec_model_read_pos(w, delay);
        let out = spec_model_read_interp(w, ch, pos);
        (
            WarbleModel { buffer: w.buffer.update(ch * w.buf_len + w.write_index, x), ..w },
            out,
        )
    }
}

/// The per-frame cursor-and-phase step on the mathematical state.
pub open spec fn spec_warble_advance(w: WarbleModel) -> WarbleModel {
    WarbleModel {
        write_index: if w.write_index + 1 == w.buf_len {
            0usize
        } else {
            (w.write_index + 1) as usize
        },
        frame_count: if w.frame_count + 1 > 60 * w.sample_rate {
            0u64
        } else {
            (w.frame_count + 1) as u64
        },
        ..w
    }
}

impl Warble {
    /// The mathematical state of the delay line.
    pub open spec fn model(self) -> WarbleModel {
        WarbleModel {
            sample_rate: self.sample_rate,
            channels: self.channels,
            buf_len: self.buf_len,
            buffer: self.buffer@,
            write_index: self.write_index,
            frame_count: self.frame_count,
            base_delay_micro: self.base_delay_micro,
            wow_depth_micro: self.wow_depth_micro,
            flutter_depth_micro: self.flutter_depth_micro,
        }
    }

    pub open spec fn wf(self) -> bool {
        &&& MIN_SAMPLE_RATE <= self.sample_rate <= MAX_SAMPLE_RATE
        &&& 1 <= self.channels <= MAX_CHANNELS
        &&& self.buf_len == spec_warble_buf_len(self.sample_rate as int)
        &&& self.buffer@.len() == self.channels * self.buf_len
        &&& forall|i: int|
            0 <= i < self.buffer@.len() ==> -SAMPLE_LIMIT <= #[trigger] self.buffer@[i]
                <= SAMPLE_LIMIT
        &&& self.write_index < self.buf_len
        &&& self.frame_count <= 60 * self.sample_rate
        &&& 0 <= self.base_delay_micro <= 2_000_000_000
        &&& 0 <= self.wow_depth_micro <= 1_000_000_000
        &&& 0 <= self.flutter_depth_micro <= 1_000_000_000
    }

    /// The whole history is silence.
    pub open spec fn buffer_is_zero(self) -> bool {
        forall|i: int| 0 <= i < self.buffer@.len() ==> #[trigger] self.buffer@[i] == 0
    }

    /// The delay for the current frame; see `spec_model_delay`.
    pub open spec fn spec_delay(self, wow_sin: int, flutter_sin: int) -> int {
        spec_model_delay(self.model(), wow_sin, flutter_sin)
    }

    /// Where the delayed read lands; see `spec_model_read_pos`.
    pub open spec fn spec_read_pos(self, delay: int) -> int {
        spec_model_read_pos(self.model(), delay)
    }

    /// The interpolated sample at a position; see `spec_model_read_interp`.
    pub open spec fn spec_read_interp(self, channel: int, pos: int) -> int {
        spec_model_read_interp(self.model(), channel, pos)
    }

    /// Builds a delay line with explicit base delay and oscillator
    /// depths, all in micro-samples, with a silent history.
    pub fn with_depths(
        sample_rate: u32,
        channels: usize,
        base_delay_micro: i64,
        wow_depth_micro: i64,
        flutter_depth_micro: i64,
    ) -> (w: Warble)
        requires
            MIN_SAMPLE_RATE <= sample_rate <= MAX_SAMPLE_RATE,
            1 <= channels <= MAX_CHANNELS,
            0 <= base_delay_micro <= 2_000_000_000,
            0 <= wow_depth_micro <= 1_000_000_000,
            0 <= flutter_depth_micro <= 1_000_000_000,
        ensures
            w.wf(),
            w.buffer_is_zero(),
            w.sample_rate == sample_rate,
            w.channels == channels,
            w.write_index == 0,
            w.frame_count == 0,
            w.base_delay_micro == base_delay_micro,
            w.wow_depth_micro == wow_depth_micro,
            w.flutter_depth_micro == flutter_depth_micro,
    {
        let ideal: usize = ((8 * sample_rate as usize) + 999) / 1000 + 4;
        let buf_len: usize = if ideal < 32 {
            32
        } else {
            ideal
        };
        proof {
            lemma_buf_len_bound(sample_rate as int);
            assert(channels * buf_len <= 64 * 3076) by (nonlinear_arith)
                requires
                    channels <= 64,
                    buf_len <= 3076,
            ;
        }
        let total: usize = channels * buf_len;
        let mut buffer: Vec<i64> = Vec::new();
        let mut i: usize = 0;
        while i < total
            invariant
                i <= total,
                buffer@.len() == i,
                forall|j: int| 0 <= j < i ==> #[trigger] buffer@[j] == 0,
            decreases total - i,
        {
            buffer.push(0);
            i = i + 1;
        }
        Warble {
            sample_rate,
            channels,
            buf_len,
            buffer,
            write_index: 0,
            frame_count: 0,
            base_delay_micro,
            wow_depth_micro,
            flutter_depth_micro,
        }
    }

    /// Builds the delay line with the standard tape-wobble tuning for a
    /// sample rate: a ~3.9 ms base delay, ~0.95 ms wow depth and
    /// ~0.22 ms flutter depth.
    pub fn new(sample_rate: u32, channels: usize) -> (w: Warble)
        requires
            MIN_SAMPLE_RATE <= sample_rate <= MAX_SAMPLE_RATE,
            1 <= channels <= MAX_CHANNELS,
        ensures
            w.wf(),
            w.buffer_is_zero(),
            w.sample_rate == sample_rate,
            w.channels == channels,
            w.write_index == 0,
            w.frame_count == 0,
            w.base_delay_micro == sample_rate * BASE_DELAY_MICROSECONDS,
            w.wow_depth_micro == sample_rate * WOW_DEPTH_MICROSECONDS,
            w.flutter_depth_micro == sample_rate * FLUTTER_DEPTH_MICROSECONDS,
    {
        let base: i64 = sample_rate as i64 * BASE_DELAY_MICROSECONDS as i64;
        let wow: i64 = sample_rate as i64 * WOW_DEPTH_MICROSECONDS as i64;
        let flutter: i64 = sample_rate as i64 * FLUTTER_DEPTH_MICROSECONDS as i64;
        Warble::with_depths(sample_rate, channels, base, wow, flutter)
    }

    /// The delay for the current frame, computed from the two oscillator
    /// values (fixed-point sine values in `[-SCALE, SCALE]`).
    pub fn delay_micro(&self, wow_sin: i64, flutter_sin: i64) -> (d: i64)
        requires
            self.wf(),
            -SCALE <= wow_sin <= SCALE,
            -SCALE <= flutter_sin <= SCALE,
        ensures
            d == self.spec_delay(wow_sin as int, flutter_sin as int),
            SCALE <= d <= (self.buf_len - 3) * SCALE,
    {
        let wow_term = mul_scaled(wow_sin, self.wow_depth_micro);
        let flutter_term = mul_scaled(flutter_sin, self.flutter_depth_micro);
        let raw: i64 = self.base_delay_micro + wow_term + flutter_term;
        proof {
            lemma_buf_len_bound(self.sample_rate as int);
            assert((self.buf_len as i64 - 3) * SCALE == (self.buf_len - 3) * SCALE)
                by (nonlinear_arith)
                requires
                    32 <= self.buf_len <= 3076,
                    SCALE == 1_000_000,
            ;
        }
        let hi: i64 = (self.buf_len as i64 - 3) * SCALE;
        if raw < SCALE {
            SCALE
        } else if raw > hi {
            hi
        } else {
            raw
        }
    }

    /// Reads the delayed, interpolated sample for one channel, then
    /// writes the input sample into the history at the write cursor.
    /// A channel the line was not built for passes through unchanged;
    /// the sizing floor keeps every buffer long enough that no other
    /// degenerate pass-through case exists.
    pub fn process(&mut self, channel: usize, input: i64, wow_sin: i64, flutter_sin: i64) -> (out:
        i64)
        requires
            old(self).wf(),
            -SAMPLE_LIMIT <= input <= SAMPLE_LIMIT,
            -SCALE <= wow_sin <= SCALE,
            -SCALE <= flutter_sin <= SCALE,
        ensures
            final(self).wf(),
            -SAMPLE_LIMIT <= out <= SAMPLE_LIMIT,
            channel >= old(self).channels ==> out == input && *final(self) == *old(self),
            channel < old(self).channels ==> {
                let delay = old(self).spec_delay(wow_sin as int, flutter_sin as int);
                let pos = old(self).spec_read_pos(delay);
                &&& out == old(self).spec_read_interp(channel as int, pos)
                &&& final(self).buffer@ == old(self).buffer@.update(
                    channel * old(self).buf_len + old(self).write_index,
                    input,
                )
            },
            final(self).sample_rate == old(self).sample_rate,
            final(self).channels == old(self).channels,
            final(self).buf_len == old(self).buf_len,
            final(self).write_index == old(self).write_index,
            final(self).frame_count == old(self).frame_count,
            final(self).base_delay_micro == old(self).base_delay_micro,
            final(self).wow_depth_micro == old(self).wow_depth_micro,
            final(self).flutter_depth_micro == old(self).flutter_depth_micro,
            final(self).model() == spec_warble_step(
                old(self).model(),
                channel as int,
                input,
                wow_sin as int,
                flutter_sin as int,
            ).0,
            out as int == spec_warble_step(
                old(self).model(),
                channel as int,
                input,
                wow_sin as int,
                flutter_sin as int,
            ).1,
    {
        if channel >= self.channels {
            return input;
        }
        let delay = self.delay_micro(wow_sin, flutter_sin);
        proof {
            lemma_buf_len_bound(self.sample_rate as int);
            assert((self.buf_len - 3) * SCALE < self.buf_len * SCALE <= 4_000_000_000)
                by (nonlinear_arith)
                requires
                    SCALE == 1_000_000,
                    32 <= self.buf_len <= 3076,
            ;
            assert(self.write_index * SCALE < self.buf_len * SCALE) by (nonlinear_arith)
                requires
                    SCALE == 1_000_000,
                    self.write_index < self.buf_len,
            ;
        }
        let len_micro: i64 = self.buf_len as i64 * SCALE;
        let wi_micro: i64 = self.write_index as i64 * SCALE;
        let pos0: i64 = wi_micro - delay;
        let pos: i64 = if pos0 < 0 {
            pos0 + len_micro
        } else {
            pos0
        };
        proof {
            let l = self.buf_len * SCALE;
            let p0 = self.write_index * SCALE - self.spec_delay(wow_sin as int, flutter_sin as int);
            if p0 < 0 {
                vstd::arithmetic::div_mod::lemma_mod_add_multiples_vanish(p0, l);
                vstd::arithmetic::div_mod::lemma_small_mod((p0 + l) as nat, l as nat);
            } else {
                vstd::arithmetic::div_mod::lemma_small_mod(p0 as nat, l as nat);
            }
            assert(pos == self.spec_read_pos(self.spec_delay(wow_sin as int, flutter_sin as int)));
        }
        let pos_u: u64 = pos as u64;
        let index_a: usize = (pos_u / 1_000_000) as usize;
        let frac: i64 = (pos_u % 1_000_000) as i64;
        proof {
            let l = self.buf_len as int;
            vstd::arithmetic::div_mod::lemma_mod_bound(pos as int, SCALE as int);
            assert(pos as int / (SCALE as int) < l) by (nonlinear_arith)
                requires
                    0 <= pos as int,
                    (pos as int) < l * (SCALE as int),
                    SCALE == 1_000_000,
            ;
            vstd::arithmetic::div_mod::lemma_div_pos_is_pos(pos as int, SCALE as int);
        }
        let index_b: usize = if index_a + 1 == self.buf_len {
            0
        } else {
            index_a + 1
        };
        proof {
            assert(channel * self.buf_len + self.buf_len <= self.channels * self.buf_len
                && self.channels * self.buf_len <= 64 * 3076) by (nonlinear_arith)
                requires
                    channel < self.channels,
                    self.channels <= 64,
                    self.buf_len <= 3076,
            ;
        }
        let row: usize = channel * self.buf_len;
        let va: i64 = self.buffer[row + index_a];
        let vb: i64 = self.buffer[row + index_b];
        let out: i64 = mul_scaled(SCALE - frac, va) + mul_scaled(frac, vb);
        proof {
            lemma_interp_bound(va as int, vb as int, frac as int);
            assert(div_trunc((SCALE - frac) as int * va as int, SCALE as int) == div_trunc(
                va as int * (SCALE - frac) as int,
                SCALE as int,
            )) by (nonlinear_arith);
            assert(div_trunc(frac as int * vb as int, SCALE as int) == div_trunc(
                vb as int * frac as int,
                SCALE as int,
            )) by (nonlinear_arith);
        }
        self.buffer[row + self.write_index] = input;
        out
    }

    /// Moves the shared write cursor forward one frame and accumulates
    /// oscillator phase, wrapping the phase after sixty seconds to bound
    /// its growth.
    pub fn advance_frame(&mut self)
        requires
            old(self).wf(),
        ensures
            final(self).wf(),
            final(self).write_index == if old(self).write_index + 1 == old(self).buf_len {
                0int
            } else {
                old(self).write_index + 1
            },
            final(self).frame_count == if old(self).frame_count + 1 > 60 * old(self).sample_rate {
                0int
            } else {
                old(self).frame_count + 1
            },
            final(self).buffer@ == old(self).buffer@,
            final(self).sample_rate == old(self).sample_rate,
            final(self).channels == old(self).channels,
            final(self).buf_len == old(self).buf_len,
            final(self).base_delay_micro == old(self).base_delay_micro,
            final(self).wow_depth_micro == old(self).wow_depth_micro,
            final(self).flutter_depth_micro == old(self).flutter_depth_micro,
            final(self).model() == spec_warble_advance(old(self).model()),
    {
        self.write_index = if self.write_index + 1 == self.buf_len {
            0
        } else {
            self.write_index + 1
        };
        let limit: u64 = 60 * self.sample_rate as u64;
        self.frame_count = if self.frame_count + 1 > limit {
            0
        } else {
            self.frame_count + 1
        };
    }

    /// The oscillator phase, in microseconds since the last wrap.
    pub fn phase_micros(&self) -> (p: u64)
        requires
            self.wf(),
        ensures
            p == self.frame_count * 1_000_000 / (self.sample_rate as int),
    {
        proof {
            assert(self.frame_count * 1_000_000 <= 60 * MAX_SAMPLE_RATE * 1_000_000)
                by (nonlinear_arith)
                requires
                    self.frame_count <= 60 * self.sample_rate,
                    self.sample_rate <= MAX_SAMPLE_RATE,
            ;
        }
        self.frame_count * 1_000_000 / (self.sample_rate as u64)
    }
}

/// With both oscillator depths at zero the delay is a constant: the base
/// delay clamped into the valid range, whatever the oscillators emit. The
/// delayed read is then a fixed fractional-sample comb.
pub proof fn lemma_zero_depth_delay(w: Warble, wow_sin: int, flutter_sin: int)
    requires
        w.wf(),
        w.wow_depth_micro == 0,
        w.flutter_depth_micro == 0,
    ensures
        w.spec_delay(wow_sin, flutter_sin) == spec_clamp(
            w.base_delay_micro as int,
            SCALE as int,
            (w.buf_len - 3) * SCALE,
        ),
{
    assert(wow_sin * 0 == 0) by (nonlinear_arith);
    assert(flutter_sin * 0 == 0) by (nonlinear_arith);
    assert(div_trunc(0, SCALE as int) == 0);
}

} // verus!
