//! Rasterizer for the tray icons: a rounded-rectangle outline with
//! either a pause glyph or a preset digit, as a 44-by-44 RGBA bitmap.
//!
//! All arithmetic is integral: pixel centres are held in half-pixel
//! units, the outline's signed distance in 1/256-pixel units via an
//! integer square root, and alpha compositing over the buffer in exact
//! fractions of 255.

use vstd::arithmetic::div_mod::lemma_div_by_multiple;
use vstd::arithmetic::div_mod::lemma_div_is_ordered;
use vstd::arithmetic::div_mod::lemma_div_pos_is_pos;
use vstd::prelude::*;

verus! {

/// Icon width and height, in pixels.
pub const ICON_SIZE: u32 = 44;

/// Glyph cell: five columns, seven rows, scaled up three-fold.
pub const GLYPH_W: usize = 5;

pub const GLYPH_H: usize = 7;

pub const GLYPH_SCALE: usize = 3;

/// Integer square root of a natural number: the greatest `r` with
/// `r * r <= n`.
pub open spec fn spec_isqrt(n: int) -> int
    decreases n,
{
    if n < 1 {
        0
    } else {
        let r = spec_isqrt(n - 1);
        if (r + 1) * (r + 1) <= n {
            r + 1
        } else {
            r
        }
    }
}

/// `spec_isqrt` satisfies its defining inequalities.
pub proof fn lemma_isqrt_bounds(n: int)
    requires
        n >= 0,
    ensures
        spec_isqrt(n) * spec_isqrt(n) <= n,
        n < (spec_isqrt(n) + 1) * (spec_isqrt(n) + 1),
        spec_isqrt(n) >= 0,
    decreases n,
{
    let q = spec_isqrt(n);
    if n == 0 {
        assert(q == 0);
        assert(n < (q + 1) * (q + 1)) by (nonlinear_arith)
            requires
                q == 0,
                n == 0,
        ;
    } else {
        lemma_isqrt_bounds(n - 1);
        let r = spec_isqrt(n - 1);
        if (r + 1) * (r + 1) <= n {
            assert(q == r + 1);
            assert(n <= (r + 1) * (r + 1));
            assert(n < (q + 1) * (q + 1)) by (nonlinear_arith)
                requires
                    q == r + 1,
                    n <= (r + 1) * (r + 1),
                    r >= 0,
            ;
        } else {
            assert(q == r);
        }
    }
}

/// The defining inequalities pin the square root down: any value
/// satisfying them equals `spec_isqrt`.
pub proof fn lemma_isqrt_unique(n: int, r: int)
    requires
        n >= 0,
        r >= 0,
        r * r <= n,
        n < (r + 1) * (r + 1),
    ensures
        r == spec_isqrt(n),
{
    lemma_isqrt_bounds(n);
    let q = spec_isqrt(n);
    assert(r < q ==> (r + 1) * (r + 1) <= q * q) by (nonlinear_arith)
        requires
            r >= 0,
            q >= 0,
    ;
    assert(q < r ==> (q + 1) * (q + 1) <= r * r) by (nonlinear_arith)
        requires
            r >= 0,
            q >= 0,
    ;
}

/// Integer square root: the greatest `r` with `r * r <= n`.
pub fn isqrt(n: u64) -> (r: u64)
    ensures
        r * r <= n,
        n < (r + 1) * (r + 1),
        r == spec_isqrt(n as int),
{
    if n == 0 {
        return 0;
    }
    let mut lo: u64 = 0;
    proof {
        lemma_isqrt_bounds(n as int);
    }
    let mut hi: u64 = 4_294_967_296;
    proof {
        assert(hi * hi > n) by (nonlinear_arith)
            requires
                hi == 4_294_967_296u64,
                n <= u64::MAX,
        ;
    }
    while lo + 1 < hi
        invariant
            lo < hi,
            hi <= 4_294_967_296,
            lo * lo <= n,
            hi * hi > n,
        decreases hi - lo,
    {
        let mid: u64 = lo + (hi - lo) / 2;
        proof {
            assert(mid * mid <= u64::MAX) by (nonlinear_arith)
                requires
                    mid < 4_294_967_296u64,
            ;
        }
        if mid * mid <= n {
            lo = mid;
        } else {
            hi = mid;
        }
    }
    proof {
        lemma_isqrt_unique(n as int, lo as int);
    }
    lo
}

/// The composited alpha byte: `na` over `ea`, in fractions of 255.
pub open spec fn spec_blend_alpha(ea: int, na: int) -> int {
    (na * 255 + ea * (255 - na)) / 255
}

/// The composited colour byte: the new colour weighted by its alpha
/// over the old colour weighted by what the old alpha keeps.
pub open spec fn spec_blend_color(c: int, c_old: int, ea: int, na: int) -> int {
    (c * na * 255 + c_old * ea * (255 - na)) / (na * 255 + ea * (255 - na))
}

/// One colour channel composited over the old one.
fn blend_channel(c: u8, c_old: u8, ea: u32, na: u32, denom: u32) -> (r: u8)
    requires
        ea <= 255,
        na <= 255,
        denom == na * 255 + ea * (255 - na),
        denom > 0,
    ensures
        r == spec_blend_color(c as int, c_old as int, ea as int, na as int),
{
    proof {
        assert(c as int * (na as int) <= 255 * 255 && c_old as int * (ea as int) <= 255 * 255)
            by (nonlinear_arith)
            requires
                0 <= c as int <= 255,
                0 <= c_old as int <= 255,
                ea <= 255,
                na <= 255,
        ;
        assert(c as int * (na as int) * 255 <= 255 * 255 * 255 && c_old as int * (ea as int) * (
        255 - na as int) <= 255 * 255 * 255) by (nonlinear_arith)
            requires
                0 <= c as int * (na as int) <= 255 * 255,
                0 <= c_old as int * (ea as int) <= 255 * 255,
                na <= 255,
                0 <= c_old as int,
                0 <= c as int,
                0 <= ea,
                0 <= na,
        ;
        lemma_blend_bounds(c as int, c_old as int, ea as int, na as int);
    }
    let num: u32 = c as u32 * na * 255 + c_old as u32 * ea * (255 - na);
    (num / denom) as u8
}

/// Blends the four bytes of one pixel. When both the old and the new
/// alpha are zero nothing changes; otherwise each channel follows the
/// exact rational compositing formulas.
fn blend_pixel(rgba: &mut Vec<u8>, offset: usize, r: u8, g: u8, b: u8, a: u8)
    requires
        offset + 3 < old(rgba)@.len(),
    ensures
        final(rgba)@.len() == old(rgba)@.len(),
        forall|k: int|
            0 <= k < old(rgba)@.len() && !(offset <= k <= offset + 3) ==> final(rgba)@[k] == old(
                rgba,
            )@[k],
        ({
            let ea = old(rgba)@[offset + 3] as int;
            let na = a as int;
            if na * 255 + ea * (255 - na) > 0 {
                &&& final(rgba)@[offset as int] == spec_blend_color(
                    r as int,
                    old(rgba)@[offset as int] as int,
                    ea,
                    na,
                )
                &&& final(rgba)@[offset + 1] == spec_blend_color(
                    g as int,
                    old(rgba)@[offset + 1] as int,
                    ea,
                    na,
                )
                &&& final(rgba)@[offset + 2] == spec_blend_color(
                    b as int,
                    old(rgba)@[offset + 2] as int,
                    ea,
                    na,
                )
                &&& final(rgba)@[offset + 3] == spec_blend_alpha(ea, na)
            } else {
                final(rgba)@ == old(rgba)@
            }
        }),
{
    let n: usize = rgba.len();
    let ea: u32 = rgba[offset + 3] as u32;
    let na: u32 = a as u32;
    proof {
        assert(na * 255 + ea * (255 - na) <= 255 * 255) by (nonlinear_arith)
            requires
                0 <= ea <= 255,
                0 <= na <= 255,
        ;
    }
    let denom: u32 = na * 255 + ea * (255 - na);
    if denom == 0 {
        return ;
    }
    let cr: u8 = blend_channel(r, rgba[offset], ea, na, denom);
    let cg: u8 = blend_channel(g, rgba[offset + 1], ea, na, denom);
    let cb: u8 = blend_channel(b, rgba[offset + 2], ea, na, denom);
    proof {
        lemma_blend_bounds(r as int, rgba@[offset as int] as int, ea as int, na as int);
    }
    let ca: u32 = denom / 255;
    rgba[offset] = cr;
    rgba[offset + 1] = cg;
    rgba[offset + 2] = cb;
    rgba[offset + 3] = ca as u8;
}

/// Each composited byte stays a byte.
proof fn lemma_blend_bounds(c: int, c_old: int, ea: int, na: int)
    requires
        0 <= c <= 255,
        0 <= c_old <= 255,
        0 <= ea <= 255,
        0 <= na <= 255,
        na * 255 + ea * (255 - na) > 0,
    ensures
        0 <= spec_blend_color(c, c_old, ea, na) <= 255,
        0 <= spec_blend_alpha(ea, na) <= 255,
{
    let d = na * 255 + ea * (255 - na);
    let num = c * na * 255 + c_old * ea * (255 - na);
    assert(0 <= num && num <= 255 * d) by (nonlinear_arith)
        requires
            0 <= c <= 255,
            0 <= c_old <= 255,
            0 <= ea <= 255,
            0 <= na <= 255,
            d == na * 255 + ea * (255 - na),
            num == c * na * 255 + c_old * ea * (255 - na),
    ;
    lemma_div_is_ordered(num, 255 * d, d);
    lemma_div_by_multiple(255, d);
    assert(255 * d == d * 255) by (nonlinear_arith);
    lemma_div_pos_is_pos(num, d);
    assert(d <= 255 * 255) by (nonlinear_arith)
        requires
            0 <= ea <= 255,
            0 <= na <= 255,
            d == na * 255 + ea * (255 - na),
    ;
    lemma_div_is_ordered(d, (255 * 255) as int, 255);
    lemma_div_pos_is_pos(d, 255);
}

/// Writes one pixel into a square RGBA bitmap by alpha compositing.
pub fn set_pixel(rgba: &mut Vec<u8>, stride: usize, x: usize, y: usize, r: u8, g: u8, b: u8, a: u8)
    requires
        stride <= 64,
        x < stride,
        y < stride,
        old(rgba)@.len() == stride * stride * 4,
    ensures
        final(rgba)@.len() == old(rgba)@.len(),
        forall|k: int|
            0 <= k < old(rgba)@.len() && !((y * stride + x) * 4 <= k <= (y * stride + x) * 4 + 3)
                ==> final(rgba)@[k] == old(rgba)@[k],
        ({
            let offset = (y * stride + x) * 4;
            let ea = old(rgba)@[offset + 3] as int;
            let na = a as int;
            if na * 255 + ea * (255 - na) > 0 {
                &&& final(rgba)@[offset as int] == spec_blend_color(
                    r as int,
                    old(rgba)@[offset as int] as int,
                    ea,
                    na,
                )
                &&& final(rgba)@[offset + 1] == spec_blend_color(
                    g as int,
                    old(rgba)@[offset + 1] as int,
                    ea,
                    na,
                )
                &&& final(rgba)@[offset + 2] == spec_blend_color(
                    b as int,
                    old(rgba)@[offset + 2] as int,
                    ea,
                    na,
                )
                &&& final(rgba)@[offset + 3] == spec_blend_alpha(ea, na)
            } else {
                final(rgba)@ == old(rgba)@
            }
        }),
{
    proof {
        assert((y * stride + x) * 4 + 3 < stride * stride * 4) by (nonlinear_arith)
            requires
                x < stride,
                y < stride,
        ;
        assert(stride * stride * 4 <= 64 * 64 * 4) by (nonlinear_arith)
            requires
                stride <= 64,
        ;
    }
    let offset: usize = (y * stride + x) * 4;
    blend_pixel(rgba, offset, r, g, b, a);
}

/// The foreground colour of the tray icon; the host adapts it to the
/// platform's light or dark theme.
pub fn icon_color() -> (c: (u8, u8, u8))
    ensures
        c == (0u8, 0u8, 0u8),
{
    (0, 0, 0)
}

/// The anti-aliased coverage of the rounded-rectangle outline at one
/// pixel, in 1/256ths of full coverage: from the pixel centre's
/// distance to the stroke band around the rectangle's edge. The outline
/// sits 4 px in from the border with a 6 px corner radius and a 2 px
/// stroke; distances are computed in half-pixel units and refined to
/// 1/256-pixel units by an integer square root.
pub open spec fn spec_outline_alpha(s: int, x: int, y: int) -> int {
    let hx = 2 * x + 1;
    let hy = 2 * y + 1;
    let lo = 20int;
    let hi = 2 * s - 20;
    let cx = if hx < lo {
        lo
    } else if hx > hi {
        hi
    } else {
        hx
    };
    let cy = if hy < lo {
        lo
    } else if hy > hi {
        hi
    } else {
        hy
    };
    let dx = if hx >= cx {
        hx - cx
    } else {
        cx - hx
    };
    let dy = if hy >= cy {
        hy - cy
    } else {
        cy - hy
    };
    let root = spec_isqrt((dx * dx + dy * dy) * 16_384);
    let mag = if root >= 1280 {
        root - 1280
    } else {
        1280 - root
    };
    let raw = if mag <= 384 {
        384 - mag
    } else {
        0int
    };
    let clamped = if raw > 256 {
        256int
    } else {
        raw
    };
    clamped * 255 / 256
}

/// The outline coverage at one pixel, as `spec_outline_alpha` states it.
fn outline_alpha(s: usize, x: usize, y: usize) -> (alpha: u8)
    requires
        32 <= s <= 64,
        x < s,
        y < s,
    ensures
        alpha as int == spec_outline_alpha(s as int, x as int, y as int),
{
    let hx: u64 = 2 * x as u64 + 1;
    let hy: u64 = 2 * y as u64 + 1;
    let lo: u64 = 20;
    let hi: u64 = 2 * s as u64 - 20;
    let cx: u64 = if hx < lo {
        lo
    } else if hx > hi {
        hi
    } else {
        hx
    };
    let cy: u64 = if hy < lo {
        lo
    } else if hy > hi {
        hi
    } else {
        hy
    };
    let dx: u64 = if hx >= cx {
        hx - cx
    } else {
        cx - hx
    };
    let dy: u64 = if hy >= cy {
        hy - cy
    } else {
        cy - hy
    };
    proof {
        assert(dx * dx + dy * dy <= 130 * 130 + 130 * 130) by (nonlinear_arith)
            requires
                dx <= 130,
                dy <= 130,
        ;
    }
    let d2: u64 = dx * dx + dy * dy;
    proof {
        assert(d2 * 16_384 <= (130 * 130 + 130 * 130) * 16_384) by (nonlinear_arith)
            requires
                d2 <= 130 * 130 + 130 * 130,
        ;
    }
    // The distance from the pixel centre to the rectangle's rounded
    // edge, in 1/256-pixel units, is isqrt(d2 * 128 * 128) - 6 * 256;
    // the stroke band's centre sits 256 units inside that edge.
    let root: u64 = isqrt(d2 * 16_384);
    let mag: u64 = if root >= 1280 {
        root - 1280
    } else {
        1280 - root
    };
    let raw: u64 = if mag <= 384 {
        384 - mag
    } else {
        0
    };
    let clamped: u64 = if raw > 256 {
        256
    } else {
        raw
    };
    let scaled: u64 = clamped * 255 / 256;
    proof {
        lemma_div_is_ordered(clamped as int * 255, (256 * 255) as int, 256);
        lemma_div_pos_is_pos(clamped as int * 255, 256);
        assert(256 * 255 / 256 == 255int);
    }
    scaled as u8
}

/// The outline pass folded over the first `k` pixels in row-major
/// order: each pixel with positive outline coverage is composited with
/// the stroke colour at that coverage; every other pixel is untouched.
pub open spec fn spec_outline_fold(
    b0: Seq<u8>,
    s: int,
    r: int,
    g: int,
    bl: int,
    k: int,
) -> Seq<u8>
    decreases k,
{
    if k <= 0 {
        b0
    } else {
        let b = spec_outline_fold(b0, s, r, g, bl, k - 1);
        let j = k - 1;
        let alpha = spec_outline_alpha(s, j % s, j / s);
        let o = j * 4;
        let ea = b[o + 3] as int;
        if alpha > 0 && alpha * 255 + ea * (255 - alpha) > 0 {
            b.update(o, spec_blend_color(r, b[o] as int, ea, alpha) as u8).update(
                o + 1,
                spec_blend_color(g, b[o + 1] as int, ea, alpha) as u8,
            ).update(o + 2, spec_blend_color(bl, b[o + 2] as int, ea, alpha) as u8).update(
                o + 3,
                spec_blend_alpha(ea, alpha) as u8,
            )
        } else {
            b
        }
    }
}

/// Draws the rounded-rectangle outline over the whole bitmap: the
/// result is exactly `spec_outline_fold` of the bitmap it started from.
pub fn draw_rounded_rect(rgba: &mut Vec<u8>, s: usize, r: u8, g: u8, b: u8)
    requires
        32 <= s <= 64,
        old(rgba)@.len() == s * s * 4,
    ensures
        final(rgba)@.len() == old(rgba)@.len(),
        final(rgba)@ == spec_outline_fold(
            old(rgba)@,
            s as int,
            r as int,
            g as int,
            b as int,
            s as int * s as int,
        ),
{
    proof {
        assert(s * s <= 64 * 64) by (nonlinear_arith)
            requires
                s <= 64,
        ;
    }
    let total: usize = s * s;
    let mut j: usize = 0;
    while j < total
        invariant
            32 <= s <= 64,
            total == s * s,
            rgba@.len() == s * s * 4,
            rgba@.len() == old(rgba)@.len(),
            j <= total,
            rgba@ == spec_outline_fold(
                old(rgba)@,
                s as int,
                r as int,
                g as int,
                b as int,
                j as int,
            ),
        decreases total - j,
    {
        proof {
            let si = s as int;
            vstd::arithmetic::div_mod::lemma_mod_bound(j as int, si);
            vstd::arithmetic::div_mod::lemma_div_pos_is_pos(j as int, si);
            assert(si * si - 1 == si * (si - 1) + (si - 1)) by (nonlinear_arith);
            vstd::arithmetic::div_mod::lemma_div_is_ordered(j as int, si * si - 1, si);
            vstd::arithmetic::div_mod::lemma_div_multiples_vanish_fancy(si - 1, si - 1, si);
            vstd::arithmetic::div_mod::lemma_fundamental_div_mod(j as int, si);
        }
        let x: usize = j % s;
        let y: usize = j / s;
        let alpha = outline_alpha(s, x, y);
        let ghost prev = rgba@;
        if alpha > 0 {
            set_pixel(rgba, s, x, y, r, g, b, alpha);
        }
        proof {
            assert(y * s == s * y) by (nonlinear_arith);
            assert((y * s + x) * 4 == j * 4);
            assert(rgba@ =~= spec_outline_fold(
                old(rgba)@,
                s as int,
                r as int,
                g as int,
                b as int,
                j as int + 1,
            ));
        }
        j = j + 1;
    }
}

/// Which of the six digit glyphs a preset slot shows: slots one to six
/// map to digit indices zero to five, a slot of zero is treated as slot
/// one, and anything above six clamps to six.
pub open spec fn spec_digit_index(preset: int) -> int {
    let shifted = if preset == 0 {
        0int
    } else {
        preset - 1
    };
    if shifted > 5 {
        5int
    } else {
        shifted
    }
}

/// The digit-glyph index a preset slot renders as.
pub fn preset_digit_index(preset: u8) -> (d: usize)
    ensures
        d == spec_digit_index(preset as int),
        d < 6,
{
    let shifted: u8 = if preset == 0 {
        0
    } else {
        preset - 1
    };
    if shifted > 5 {
        5
    } else {
        shifted as usize
    }
}

/// One row of the five-by-seven digit glyph for digits one to six; the
/// low five bits are pixel columns, left to right.
pub open spec fn spec_glyph_row(digit_idx: int, row: int) -> u8 {
    if digit_idx == 0 {
        if row == 0 {
            0b00100u8
        } else if row == 1 {
            0b01100u8
        } else if row == 2 {
            0b00100u8
        } else if row == 3 {
            0b00100u8
        } else if row == 4 {
            0b00100u8
        } else if row == 5 {
            0b00100u8
        } else {
            0b01110u8
        }
    } else if digit_idx == 1 {
        if row == 0 {
            0b01110u8
        } else if row == 1 {
            0b10001u8
        } else if row == 2 {
            0b00001u8
        } else if row == 3 {
            0b00110u8
        } else if row == 4 {
            0b01000u8
        } else if row == 5 {
            0b10000u8
        } else {
            0b11111u8
        }
    } else if digit_idx == 2 {
        if row == 0 {
            0b01110u8
        } else if row == 1 {
            0b10001u8
        } else if row == 2 {
            0b00001u8
        } else if row == 3 {
            0b00110u8
        } else if row == 4 {
            0b00001u8
        } else if row == 5 {
            0b10001u8
        } else {
            0b01110u8
        }
    } else if digit_idx == 3 {
        if row == 0 {
            0b00010u8
        } else if row == 1 {
            0b00110u8
        } else if row == 2 {
            0b01010u8
        } else if row == 3 {
            0b10010u8
        } else if row == 4 {
            0b11111u8
        } else if row == 5 {
            0b00010u8
        } else {
            0b00010u8
        }
    } else if digit_idx == 4 {
        if row == 0 {
            0b11111u8
        } else if row == 1 {
            0b10000u8
        } else if row == 2 {
            0b11110u8
        } else if row == 3 {
            0b00001u8
        } else if row == 4 {
            0b00001u8
        } else if row == 5 {
            0b10001u8
        } else {
            0b01110u8
        }
    } else {
        if row == 0 {
            0b01110u8
        } else if row == 1 {
            0b10001u8
        } else if row == 2 {
            0b10000u8
        } else if row == 3 {
            0b11110u8
        } else if row == 4 {
            0b10001u8
        } else if row == 5 {
            0b10001u8
        } else {
            0b01110u8
        }
    }
}

/// One row of the digit glyph, as `spec_glyph_row` states it.
pub fn glyph_row(digit_idx: usize, row: usize) -> (bits: u8)
    requires
        digit_idx < 6,
        row < 7,
    ensures
        bits == spec_glyph_row(digit_idx as int, row as int),
{
    if digit_idx == 0 {
        if row == 0 {
            0b00100u8
        } else if row == 1 {
            0b01100u8
        } else if row == 2 {
            0b00100u8
        } else if row == 3 {
            0b00100u8
        } else if row == 4 {
            0b00100u8
        } else if row == 5 {
            0b00100u8
        } else {
            0b01110u8
        }
    } else if digit_idx == 1 {
        if row == 0 {
            0b01110u8
        } else if row == 1 {
            0b10001u8
        } else if row == 2 {
            0b00001u8
        } else if row == 3 {
            0b00110u8
        } else if row == 4 {
            0b01000u8
        } else if row == 5 {
            0b10000u8
        } else {
            0b11111u8
        }
    } else if digit_idx == 2 {
        if row == 0 {
            0b01110u8
        } else if row == 1 {
            0b10001u8
        } else if row == 2 {
            0b00001u8
        } else if row == 3 {
            0b00110u8
        } else if row == 4 {
            0b00001u8
        } else if row == 5 {
            0b10001u8
        } else {
            0b01110u8
        }
    } else if digit_idx == 3 {
        if row == 0 {
            0b00010u8
        } else if row == 1 {
            0b00110u8
        } else if row == 2 {
            0b01010u8
        } else if row == 3 {
            0b10010u8
        } else if row == 4 {
            0b11111u8
        } else if row == 5 {
            0b00010u8
        } else {
            0b00010u8
        }
    } else if digit_idx == 4 {
        if row == 0 {
            0b11111u8
        } else if row == 1 {
            0b10000u8
        } else if row == 2 {
            0b11110u8
        } else if row == 3 {
            0b00001u8
        } else if row == 4 {
            0b00001u8
        } else if row == 5 {
            0b10001u8
        } else {
            0b01110u8
        }
    } else {
        if row == 0 {
            0b01110u8
        } else if row == 1 {
            0b10001u8
        } else if row == 2 {
            0b10000u8
        } else if row == 3 {
            0b11110u8
        } else if row == 4 {
            0b10001u8
        } else if row == 5 {
            0b10001u8
        } else {
            0b01110u8
        }
    }
}

/// Whether one glyph cell of a digit carries ink: bit `4 - col` of the
/// glyph row, counting columns left to right.
pub open spec fn spec_glyph_bit(digit_idx: int, row: int, col: int) -> bool {
    (spec_glyph_row(digit_idx, row) >> ((4 - col) as u8)) & 1 == 1
}

/// An opaque foreground pixel of a 44-wide bitmap.
pub open spec fn spec_opaque_fg(b: Seq<u8>, px: int, py: int) -> bool {
    let o = (py * 44 + px) * 4;
    &&& b[o] == 0
    &&& b[o + 1] == 0
    &&& b[o + 2] == 0
    &&& b[o + 3] == 255
}

/// All nine pixels of one scaled glyph cell are opaque foreground.
pub open spec fn spec_cell_opaque(b: Seq<u8>, row: int, col: int) -> bool {
    forall|dy: int, dx: int|
        0 <= dy < 3 && 0 <= dx < 3 ==> #[trigger] spec_opaque_fg(
            b,
            14 + col * 3 + dx,
            11 + row * 3 + dy,
        )
}

/// Compositing a fully opaque foreground pixel yields exactly the
/// foreground bytes, whatever lay underneath.
proof fn lemma_blend_opaque(c_old: int, ea: int)
    requires
        0 <= c_old <= 255,
        0 <= ea <= 255,
    ensures
        spec_blend_color(0, c_old, ea, 255) == 0,
        spec_blend_alpha(ea, 255) == 255,
{
    assert(c_old * ea * (255 - 255) == 0) by (nonlinear_arith);
    assert(ea * (255 - 255) == 0) by (nonlinear_arith);
    assert(0 * 255 * 255 == 0) by (nonlinear_arith);
}

/// An opaque pixel stays opaque when a different pixel of the bitmap is
/// rewritten.
proof fn lemma_pixel_opaque_preserved(
    prev: Seq<u8>,
    cur: Seq<u8>,
    x: int,
    y: int,
    px: int,
    py: int,
)
    requires
        prev.len() == cur.len(),
        prev.len() == 44 * 44 * 4,
        spec_opaque_fg(prev, x, y),
        0 <= x < 44,
        0 <= y < 44,
        0 <= px < 44,
        0 <= py < 44,
        x != px || y != py,
        forall|k: int|
            0 <= k < prev.len() && !((py * 44 + px) * 4 <= k <= (py * 44 + px) * 4 + 3)
                ==> cur[k] == prev[k],
    ensures
        spec_opaque_fg(cur, x, y),
{
    if y < py {
        assert(y * 44 + x < py * 44 + px);
    } else if y > py {
        assert(y * 44 + x >= py * 44 + 44);
    }
    assert(y * 44 + x != py * 44 + px);
}

/// Already-drawn pause-bar pixels (rows before `dy`, and columns before
/// `dx` of row `dy`) stay opaque across one write at a later bar pixel.
proof fn bars_preserved(prev: Seq<u8>, cur: Seq<u8>, dy: int, dx: int, px: int, py: int)
    requires
        prev.len() == cur.len(),
        prev.len() == 44 * 44 * 4,
        0 <= dy < 16,
        0 <= dx < 4,
        py == 14 + dy,
        px == 15 + dx || px == 25 + dx,
        forall|dy2: int, dx2: int|
            0 <= dy2 < dy && 0 <= dx2 < 4 ==> #[trigger] spec_opaque_fg(prev, 15 + dx2, 14 + dy2),
        forall|dy2: int, dx2: int|
            0 <= dy2 < dy && 0 <= dx2 < 4 ==> #[trigger] spec_opaque_fg(prev, 25 + dx2, 14 + dy2),
        forall|dx2: int| 0 <= dx2 < dx ==> #[trigger] spec_opaque_fg(prev, 15 + dx2, 14 + dy),
        forall|dx2: int| 0 <= dx2 < dx ==> #[trigger] spec_opaque_fg(prev, 25 + dx2, 14 + dy),
        forall|k: int|
            0 <= k < prev.len() && !((py * 44 + px) * 4 <= k <= (py * 44 + px) * 4 + 3)
                ==> cur[k] == prev[k],
    ensures
        forall|dy2: int, dx2: int|
            0 <= dy2 < dy && 0 <= dx2 < 4 ==> #[trigger] spec_opaque_fg(cur, 15 + dx2, 14 + dy2),
        forall|dy2: int, dx2: int|
            0 <= dy2 < dy && 0 <= dx2 < 4 ==> #[trigger] spec_opaque_fg(cur, 25 + dx2, 14 + dy2),
        forall|dx2: int| 0 <= dx2 < dx ==> #[trigger] spec_opaque_fg(cur, 15 + dx2, 14 + dy),
        forall|dx2: int| 0 <= dx2 < dx ==> #[trigger] spec_opaque_fg(cur, 25 + dx2, 14 + dy),
{
    assert forall|dy2: int, dx2: int|
        0 <= dy2 < dy && 0 <= dx2 < 4 implies #[trigger] spec_opaque_fg(
        cur,
        15 + dx2,
        14 + dy2,
    ) by {
        lemma_pixel_opaque_preserved(prev, cur, 15 + dx2, 14 + dy2, px, py);
    }
    assert forall|dy2: int, dx2: int|
        0 <= dy2 < dy && 0 <= dx2 < 4 implies #[trigger] spec_opaque_fg(
        cur,
        25 + dx2,
        14 + dy2,
    ) by {
        lemma_pixel_opaque_preserved(prev, cur, 25 + dx2, 14 + dy2, px, py);
    }
    assert forall|dx2: int| 0 <= dx2 < dx implies #[trigger] spec_opaque_fg(
        cur,
        15 + dx2,
        14 + dy,
    ) by {
        lemma_pixel_opaque_preserved(prev, cur, 15 + dx2, 14 + dy, px, py);
    }
    assert forall|dx2: int| 0 <= dx2 < dx implies #[trigger] spec_opaque_fg(
        cur,
        25 + dx2,
        14 + dy,
    ) by {
        lemma_pixel_opaque_preserved(prev, cur, 25 + dx2, 14 + dy, px, py);
    }
}

/// A fully inked glyph cell stays inked when a pixel outside it is
/// rewritten.
proof fn lemma_cell_opaque_preserved(
    prev: Seq<u8>,
    cur: Seq<u8>,
    r: int,
    c: int,
    px: int,
    py: int,
)
    requires
        prev.len() == cur.len(),
        prev.len() == 44 * 44 * 4,
        spec_cell_opaque(prev, r, c),
        0 <= r < 7,
        0 <= c < 5,
        0 <= px < 44,
        0 <= py < 44,
        px < 14 + c * 3 || px > 14 + c * 3 + 2 || py < 11 + r * 3 || py > 11 + r * 3 + 2,
        forall|k: int|
            0 <= k < prev.len() && !((py * 44 + px) * 4 <= k <= (py * 44 + px) * 4 + 3)
                ==> cur[k] == prev[k],
    ensures
        spec_cell_opaque(cur, r, c),
{
    assert forall|dy2: int, dx2: int| 0 <= dy2 < 3 && 0 <= dx2 < 3 implies #[trigger] spec_opaque_fg(
        cur,
        14 + c * 3 + dx2,
        11 + r * 3 + dy2,
    ) by {
        assert(spec_opaque_fg(prev, 14 + c * 3 + dx2, 11 + r * 3 + dy2));
        lemma_pixel_opaque_preserved(prev, cur, 14 + c * 3 + dx2, 11 + r * 3 + dy2, px, py);
    }
}

/// A fresh, fully transparent square bitmap.
fn blank_bitmap(s: usize) -> (rgba: Vec<u8>)
    requires
        s <= 64,
    ensures
        rgba@.len() == s * s * 4,
{
    proof {
        assert(s * s * 4 <= 64 * 64 * 4) by (nonlinear_arith)
            requires
                s <= 64,
        ;
    }
    let total: usize = s * s * 4;
    let mut rgba: Vec<u8> = Vec::new();
    let mut i: usize = 0;
    while i < total
        invariant
            rgba@.len() == i,
            i <= total,
        decreases total - i,
    {
        rgba.push(0);
        i = i + 1;
    }
    rgba
}

/// Renders the idle icon: the outline with a pause symbol — two
/// four-by-sixteen vertical bars — centred inside it. Every pixel of
/// both bars comes out opaque foreground.
pub fn render_idle_icon() -> (icon: (Vec<u8>, u32, u32))
    ensures
        icon.0@.len() == 44 * 44 * 4,
        icon.1 == ICON_SIZE,
        icon.2 == ICON_SIZE,
        forall|dy: int, dx: int|
            0 <= dy < 16 && 0 <= dx < 4 ==> #[trigger] spec_opaque_fg(icon.0@, 15 + dx, 14 + dy),
        forall|dy: int, dx: int|
            0 <= dy < 16 && 0 <= dx < 4 ==> #[trigger] spec_opaque_fg(icon.0@, 25 + dx, 14 + dy),
{
    let s: usize = 44;
    let mut rgba = blank_bitmap(s);
    let color = icon_color();
    draw_rounded_rect(&mut rgba, s, color.0, color.1, color.2);

    let bar_w: usize = 4;
    let bar_h: usize = 16;
    let gap: usize = 6;
    let ox: usize = (s - (bar_w * 2 + gap)) / 2;
    let oy: usize = (s - bar_h) / 2;

    let mut dy: usize = 0;
    while dy < bar_h
        invariant
            dy <= bar_h,
            rgba@.len() == s * s * 4,
            s == 44,
            ox == 15,
            oy == 14,
            bar_w == 4,
            bar_h == 16,
            gap == 6,
            color == (0u8, 0u8, 0u8),
            forall|dy2: int, dx2: int|
                0 <= dy2 < dy && 0 <= dx2 < 4 ==> #[trigger] spec_opaque_fg(
                    rgba@,
                    15 + dx2,
                    14 + dy2,
                ),
            forall|dy2: int, dx2: int|
                0 <= dy2 < dy && 0 <= dx2 < 4 ==> #[trigger] spec_opaque_fg(
                    rgba@,
                    25 + dx2,
                    14 + dy2,
                ),
        decreases bar_h - dy,
    {
        let mut dx: usize = 0;
        while dx < bar_w
            invariant
                dx <= bar_w,
                dy < bar_h,
                rgba@.len() == s * s * 4,
                s == 44,
                ox == 15,
                oy == 14,
                bar_w == 4,
                bar_h == 16,
                gap == 6,
                color == (0u8, 0u8, 0u8),
                forall|dy2: int, dx2: int|
                    0 <= dy2 < dy && 0 <= dx2 < 4 ==> #[trigger] spec_opaque_fg(
                        rgba@,
                        15 + dx2,
                        14 + dy2,
                    ),
                forall|dy2: int, dx2: int|
                    0 <= dy2 < dy && 0 <= dx2 < 4 ==> #[trigger] spec_opaque_fg(
                        rgba@,
                        25 + dx2,
                        14 + dy2,
                    ),
                forall|dx2: int|
                    0 <= dx2 < dx ==> #[trigger] spec_opaque_fg(rgba@, 15 + dx2, 14 + dy),
                forall|dx2: int|
                    0 <= dx2 < dx ==> #[trigger] spec_opaque_fg(rgba@, 25 + dx2, 14 + dy),
            decreases bar_w - dx,
        {
            let px1 = ox + dx;
            let px2 = ox + bar_w + gap + dx;
            let py = oy + dy;
            proof {
                let o1 = (py as int * 44 + px1 as int) * 4;
                lemma_blend_opaque(rgba@[o1] as int, rgba@[o1 + 3] as int);
                lemma_blend_opaque(rgba@[o1 + 1] as int, rgba@[o1 + 3] as int);
                lemma_blend_opaque(rgba@[o1 + 2] as int, rgba@[o1 + 3] as int);
            }
            let ghost prev1 = rgba@;
            set_pixel(&mut rgba, s, px1, py, color.0, color.1, color.2, 255);
            proof {
                bars_preserved(prev1, rgba@, dy as int, dx as int, px1 as int, py as int);
                assert(spec_opaque_fg(rgba@, px1 as int, py as int));
                let o2 = (py as int * 44 + px2 as int) * 4;
                lemma_blend_opaque(rgba@[o2] as int, rgba@[o2 + 3] as int);
                lemma_blend_opaque(rgba@[o2 + 1] as int, rgba@[o2 + 3] as int);
                lemma_blend_opaque(rgba@[o2 + 2] as int, rgba@[o2 + 3] as int);
            }
            let ghost prev2 = rgba@;
            set_pixel(&mut rgba, s, px2, py, color.0, color.1, color.2, 255);
            proof {
                bars_preserved(prev2, rgba@, dy as int, dx as int, px2 as int, py as int);
                lemma_pixel_opaque_preserved(
                    prev2,
                    rgba@,
                    px1 as int,
                    py as int,
                    px2 as int,
                    py as int,
                );
                assert(spec_opaque_fg(rgba@, px2 as int, py as int));
            }
            dx = dx + 1;
        }
        dy = dy + 1;
    }
    (rgba, ICON_SIZE, ICON_SIZE)
}

/// Renders the icon for a preset slot: the outline with the digit
/// glyph `spec_digit_index(preset)` — slots one to six, out-of-range
/// slots clamped as that function states — centred inside it. Every
/// pixel of every inked glyph cell of that digit comes out opaque
/// foreground.
pub fn render_preset_icon(preset: u8) -> (icon: (Vec<u8>, u32, u32))
    ensures
        icon.0@.len() == 44 * 44 * 4,
        icon.1 == ICON_SIZE,
        icon.2 == ICON_SIZE,
        forall|r: int, c: int|
            0 <= r < 7 && 0 <= c < 5 && spec_glyph_bit(spec_digit_index(preset as int), r, c)
                ==> #[trigger] spec_cell_opaque(icon.0@, r, c),
{
    let s: usize = 44;
    let mut rgba = blank_bitmap(s);
    let color = icon_color();
    draw_rounded_rect(&mut rgba, s, color.0, color.1, color.2);

    let digit_idx: usize = preset_digit_index(preset);

    let ox: usize = (s - GLYPH_W * GLYPH_SCALE) / 2;
    let oy: usize = (s - GLYPH_H * GLYPH_SCALE) / 2;

    let mut row: usize = 0;
    while row < GLYPH_H
        invariant
            row <= GLYPH_H,
            rgba@.len() == s * s * 4,
            s == 44,
            ox == 14,
            oy == 11,
            color == (0u8, 0u8, 0u8),
            digit_idx < 6,
            digit_idx == spec_digit_index(preset as int),
            forall|r: int, c: int|
                0 <= r < row && 0 <= c < 5 && spec_glyph_bit(digit_idx as int, r, c)
                    ==> #[trigger] spec_cell_opaque(rgba@, r, c),
        decreases GLYPH_H - row,
    {
        let bits = glyph_row(digit_idx, row);
        let mut col: usize = 0;
        while col < GLYPH_W
            invariant
                col <= GLYPH_W,
                row < GLYPH_H,
                rgba@.len() == s * s * 4,
                s == 44,
                ox == 14,
                oy == 11,
                color == (0u8, 0u8, 0u8),
                digit_idx < 6,
                bits == spec_glyph_row(digit_idx as int, row as int),
                forall|r: int, c: int|
                    0 <= r < row && 0 <= c < 5 && spec_glyph_bit(digit_idx as int, r, c)
                        ==> #[trigger] spec_cell_opaque(rgba@, r, c),
                forall|c: int|
                    0 <= c < col && spec_glyph_bit(digit_idx as int, row as int, c)
                        ==> #[trigger] spec_cell_opaque(rgba@, row as int, c),
            decreases GLYPH_W - col,
        {
            let mask: u8 = 1u8 << (4 - col) as u8;
            proof {
                let sh = (4 - col) as u8;
                assert((bits & (1u8 << sh) != 0) == (((bits >> sh) & 1) == 1)) by (bit_vector)
                    requires
                        sh < 8,
                ;
            }
            if bits & mask != 0 {
                let mut dy: usize = 0;
                while dy < GLYPH_SCALE
                    invariant
                        dy <= GLYPH_SCALE,
                        col < GLYPH_W,
                        row < GLYPH_H,
                        rgba@.len() == s * s * 4,
                        s == 44,
                        ox == 14,
                        oy == 11,
                        color == (0u8, 0u8, 0u8),
                        digit_idx < 6,
                        forall|r: int, c: int|
                            0 <= r < row && 0 <= c < 5 && spec_glyph_bit(digit_idx as int, r, c)
                                ==> #[trigger] spec_cell_opaque(rgba@, r, c),
                        forall|c: int|
                            0 <= c < col && spec_glyph_bit(digit_idx as int, row as int, c)
                                ==> #[trigger] spec_cell_opaque(rgba@, row as int, c),
                        forall|dy2: int, dx2: int|
                            0 <= dy2 < dy && 0 <= dx2 < 3 ==> #[trigger] spec_opaque_fg(
                                rgba@,
                                14 + col * 3 + dx2,
                                11 + row * 3 + dy2,
                            ),
                    decreases GLYPH_SCALE - dy,
                {
                    let mut dx: usize = 0;
                    while dx < GLYPH_SCALE
                        invariant
                            dx <= GLYPH_SCALE,
                            dy < GLYPH_SCALE,
                            col < GLYPH_W,
                            row < GLYPH_H,
                            rgba@.len() == s * s * 4,
                            s == 44,
                            ox == 14,
                            oy == 11,
                            color == (0u8, 0u8, 0u8),
                            digit_idx < 6,
                            forall|r: int, c: int|
                                0 <= r < row && 0 <= c < 5 && spec_glyph_bit(
                                    digit_idx as int,
                                    r,
                                    c,
                                ) ==> #[trigger] spec_cell_opaque(rgba@, r, c),
                            forall|c: int|
                                0 <= c < col && spec_glyph_bit(digit_idx as int, row as int, c)
                                    ==> #[trigger] spec_cell_opaque(rgba@, row as int, c),
                            forall|dy2: int, dx2: int|
                                0 <= dy2 < dy && 0 <= dx2 < 3 ==> #[trigger] spec_opaque_fg(
                                    rgba@,
                                    14 + col * 3 + dx2,
                                    11 + row * 3 + dy2,
                                ),
                            forall|dx2: int|
                                0 <= dx2 < dx ==> #[trigger] spec_opaque_fg(
                                    rgba@,
                                    14 + col * 3 + dx2,
                                    11 + row * 3 + dy,
                                ),
                        decreases GLYPH_SCALE - dx,
                    {
                        let px = ox + col * GLYPH_SCALE + dx;
                        let py = oy + row * GLYPH_SCALE + dy;
                        proof {
                            let o = (py as int * 44 + px as int) * 4;
                            lemma_blend_opaque(rgba@[o] as int, rgba@[o + 3] as int);
                            lemma_blend_opaque(rgba@[o + 1] as int, rgba@[o + 3] as int);
                            lemma_blend_opaque(rgba@[o + 2] as int, rgba@[o + 3] as int);
                        }
                        let ghost prev = rgba@;
                        set_pixel(&mut rgba, s, px, py, color.0, color.1, color.2, 255);
                        proof {
                            let d = digit_idx as int;
                            assert forall|r: int, c: int|
                                0 <= r < row && 0 <= c < 5 && spec_glyph_bit(
                                    d,
                                    r,
                                    c,
                                ) implies #[trigger] spec_cell_opaque(rgba@, r, c) by {
                                assert(spec_cell_opaque(prev, r, c));
                                lemma_cell_opaque_preserved(
                                    prev,
                                    rgba@,
                                    r,
                                    c,
                                    px as int,
                                    py as int,
                                );
                            }
                            assert forall|c: int|
                                0 <= c < col && spec_glyph_bit(
                                    d,
                                    row as int,
                                    c,
                                ) implies #[trigger] spec_cell_opaque(rgba@, row as int, c) by {
                                assert(spec_cell_opaque(prev, row as int, c));
                                lemma_cell_opaque_preserved(
                                    prev,
                                    rgba@,
                                    row as int,
                                    c,
                                    px as int,
                                    py as int,
                                );
                            }
                            assert forall|dy2: int, dx2: int|
                                0 <= dy2 < dy && 0 <= dx2 < 3 implies #[trigger] spec_opaque_fg(
                                rgba@,
                                14 + col * 3 + dx2,
                                11 + row * 3 + dy2,
                            ) by {
                                assert(spec_opaque_fg(prev, 14 + col * 3 + dx2, 11 + row * 3 + dy2));
                                lemma_pixel_opaque_preserved(
                                    prev,
                                    rgba@,
                                    14 + col * 3 + dx2,
                                    11 + row * 3 + dy2,
                                    px as int,
                                    py as int,
                                );
                            }
                            assert forall|dx2: int|
                                0 <= dx2 < dx implies #[trigger] spec_opaque_fg(
                                rgba@,
                                14 + col * 3 + dx2,
                                11 + row * 3 + dy,
                            ) by {
                                assert(spec_opaque_fg(prev, 14 + col * 3 + dx2, 11 + row * 3 + dy));
                                lemma_pixel_opaque_preserved(
                                    prev,
                                    rgba@,
                                    14 + col * 3 + dx2,
                                    11 + row * 3 + dy,
                                    px as int,
                                    py as int,
                                );
                            }
                            assert(spec_opaque_fg(rgba@, px as int, py as int));
                        }
                        dx = dx + 1;
                    }
                    dy = dy + 1;
                }
            }
            col = col + 1;
        }
        row = row + 1;
    }
    (rgba, ICON_SIZE, ICON_SIZE)
}

/// The idle icon; rendering is deterministic and cheap, so callers may
/// hold on to the result instead of re-rendering.
pub fn cached_idle_icon() -> (icon: (Vec<u8>, u32, u32))
    ensures
        icon.0@.len() == 44 * 44 * 4,
        icon.1 == ICON_SIZE,
        icon.2 == ICON_SIZE,
{
    render_idle_icon()
}

/// The icon for a preset slot; rendering is deterministic and cheap, so
/// callers may hold on to the result instead of re-rendering. Carries
/// the same digit-glyph guarantee as `render_preset_icon`.
pub fn cached_preset_icon(preset: u8) -> (icon: (Vec<u8>, u32, u32))
    ensures
        icon.0@.len() == 44 * 44 * 4,
        icon.1 == ICON_SIZE,
        icon.2 == ICON_SIZE,
        forall|r: int, c: int|
            0 <= r < 7 && 0 <= c < 5 && spec_glyph_bit(spec_digit_index(preset as int), r, c)
                ==> #[trigger] spec_cell_opaque(icon.0@, r, c),
{
    render_preset_icon(preset)
}

} // verus!
