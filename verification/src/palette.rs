//! The palette generator: an ordered table of 256 packed colors, one per
//! possible heat intensity, produced from a single hue-scale parameter.
//!
//! The scale is carried as a whole number of twentieths (`h20`), because
//! the running simulation only ever starts it at 3.0 and nudges it in
//! steps of 0.05; every reachable scale is therefore an exact multiple of
//! 1/20, and the whole conversion — hue angle, HSL to RGB, quantization —
//! can be evaluated in exact rational arithmetic over machine integers.
//!
//! For index `i` the generator takes hue angle `i / (h * 256)` with
//! `h = h20 / 20` (not wrapped into [0, 1]), full saturation, and
//! lightness `min(1, 2*i / 256)`, converts through the standard
//! piecewise-linear HSL hue function, truncates each channel times 255 to
//! an 8-bit value, and packs the triple as blue, green, red, zero — the
//! little-endian layout the display surface expects.

use vstd::prelude::*;
use vstd::arithmetic::div_mod::lemma_fundamental_div_mod_converse;
use vstd::arithmetic::div_mod::lemma_mod_multiples_vanish;

verus! {

/// Number of colors in the palette: one per possible intensity value.
pub const PALETTE_SIZE: usize = 256;

/// The starting hue scale, 3.0, in twentieths.
pub const HUE_DEFAULT_TWENTIETHS: i64 = 60;

/// Working bound on the scale's magnitude (a scale of 50000.0); it keeps
/// the exact rational arithmetic of the generator inside 64-bit words.
pub const HUE_LIMIT_TWENTIETHS: i64 = 1000000;

/// Magnitude of the hue-scale step count.
pub open spec fn hue_abs(h20: int) -> int {
    if h20 < 0 {
        -h20
    } else {
        h20
    }
}

/// Common denominator of every hue angle the generator uses for scale
/// `h20`: the base angle is `i / (h * 256) == 15*i / (192*h20)`, and the
/// red and blue channels sit 1/3 of a turn (`64*|h20| / (192*|h20|)`) to
/// either side.
pub open spec fn hue_den(h20: int) -> int {
    192 * hue_abs(h20)
}

/// Numerator of the base (green-channel) hue angle over `hue_den(h20)`.
pub open spec fn base_angle_num(h20: int, i: int) -> int {
    if h20 < 0 {
        -(15 * i)
    } else {
        15 * i
    }
}

/// Lightness ramp of the palette as a fraction over 256: index `i` maps
/// to `min(1, 2*i / 256)` — a linear climb from black that saturates at
/// full lightness from the midpoint index on.
pub open spec fn lightness256(i: int) -> int {
    if 2 * i < 256 {
        2 * i
    } else {
        256
    }
}

/// The `q` parameter of the HSL conversion at full saturation, as a
/// fraction over 64: `q = l*(1+s)` below lightness 1/2 and `q = l+s-l*s`
/// above, which at `s == 1` is `2*l`, then constant 1.
pub open spec fn q64_of(i: int) -> int {
    if i < 64 {
        i
    } else {
        64
    }
}

/// The `p` parameter of the conversion, `2*l - q`, as a fraction over 64.
pub open spec fn p64_of(i: int) -> int {
    if i < 64 {
        0
    } else if i < 128 {
        i - 64
    } else {
        64
    }
}

/// One wrap pass of the piecewise hue function: a negative angle is moved
/// up by one turn, then an angle above one turn is moved down by one turn
/// — each at most once, exactly as the conversion defines it.
pub open spec fn wrap_num(tn: int, td: int) -> int {
    let t1 = if tn < 0 {
        tn + td
    } else {
        tn
    };
    if t1 > td {
        t1 - td
    } else {
        t1
    }
}

/// The piecewise-linear hue function of the HSL conversion in exact
/// rational form. `p64/64` and `q64/64` are the two mixing values, the
/// angle is `tn0/td` with `td > 0`; the result is the numerator of the
/// channel value over denominator `64*td`. The six 1/6-wide segments of
/// the conversion appear as four branches: below 1/6 a climb from `p`
/// toward `q`, below 1/2 flat `q`, below 2/3 a descent back to `p`, then
/// flat `p`.
pub open spec fn hue_channel_num(p64: int, q64: int, tn0: int, td: int) -> int {
    let tn = wrap_num(tn0, td);
    if 6 * tn < td {
        p64 * td + (q64 - p64) * 6 * tn
    } else if 2 * tn < td {
        q64 * td
    } else if 3 * tn < 2 * td {
        p64 * td + (q64 - p64) * 2 * (2 * td - 3 * tn)
    } else {
        p64 * td
    }
}

/// Quantization of a rational channel value `vn/vd` to an 8-bit integer:
/// values at or below 0 floor to 0, values at or above 1 saturate to 255,
/// values in between truncate `value * 255`.
pub open spec fn quantize(vn: int, vd: int) -> int {
    if vn <= 0 {
        0
    } else if vn >= vd {
        255
    } else {
        (255 * vn) / vd
    }
}

/// The quantized red channel of palette entry `i`: the conversion at the
/// base angle plus 1/3 of a turn.
pub open spec fn red_of(h20: int, i: int) -> int {
    quantize(
        hue_channel_num(
            p64_of(i),
            q64_of(i),
            base_angle_num(h20, i) + 64 * hue_abs(h20),
            hue_den(h20),
        ),
        64 * hue_den(h20),
    )
}

/// The quantized green channel of palette entry `i`: the conversion at
/// the base angle itself.
pub open spec fn green_of(h20: int, i: int) -> int {
    quantize(
        hue_channel_num(p64_of(i), q64_of(i), base_angle_num(h20, i), hue_den(h20)),
        64 * hue_den(h20),
    )
}

/// The quantized blue channel of palette entry `i`: the conversion at the
/// base angle minus 1/3 of a turn.
pub open spec fn blue_of(h20: int, i: int) -> int {
    quantize(
        hue_channel_num(
            p64_of(i),
            q64_of(i),
            base_angle_num(h20, i) - 64 * hue_abs(h20),
            hue_den(h20),
        ),
        64 * hue_den(h20),
    )
}

/// One packed palette entry: bytes ordered blue, green, red, zero in a
/// little-endian 32-bit word.
pub open spec fn palette_entry(h20: int, i: int) -> u32 {
    (blue_of(h20, i) + 256 * green_of(h20, i) + 65536 * red_of(h20, i)) as u32
}

/// The full palette for hue-scale step count `h20`.
pub open spec fn palette_spec(h20: int) -> Seq<u32> {
    Seq::new(256, |i: int| palette_entry(h20, i))
}

/// The red byte of a packed pixel (third byte, little-endian).
pub open spec fn red_byte(px: u32) -> int {
    (px as int / 65536) % 256
}

/// The green byte of a packed pixel (second byte, little-endian).
pub open spec fn green_byte(px: u32) -> int {
    (px as int / 256) % 256
}

/// The blue byte of a packed pixel (lowest byte, little-endian).
pub open spec fn blue_byte(px: u32) -> int {
    px as int % 256
}

/// Quantize a nonnegative rational `vn/vd` to an 8-bit channel value.
fn quantize_exec(vn: u64, vd: u64) -> (v: u8)
    requires
        0 < vd,
        vn <= 0x4000_0000_0000,
    ensures
        v as int == quantize(vn as int, vd as int),
{
    if vn == 0 {
        0
    } else if vn >= vd {
        255
    } else {
        proof {
            assert(255 * (vn as int) / (vd as int) < 255) by (nonlinear_arith)
                requires
                    0 < vn < vd,
            ;
            assert(255 * (vn as int) / (vd as int) >= 0) by (nonlinear_arith)
                requires
                    0 < vn,
                    0 < vd,
            ;
        }
        ((255 * vn) / vd) as u8
    }
}

/// Evaluate the wrapped piecewise hue function at angle `±tn_mag / td`
/// (negative iff `tn_neg`) and quantize the resulting channel.
fn channel_value(p64: u64, q64: u64, tn_neg: bool, tn_mag: u64, td: u64) -> (v: u8)
    requires
        0 < td <= 0x1000_0000,
        p64 <= q64,
        q64 <= 64,
        tn_mag <= 0x1000_0000,
    ensures
        v as int == quantize(
            hue_channel_num(
                p64 as int,
                q64 as int,
                if tn_neg {
                    -(tn_mag as int)
                } else {
                    tn_mag as int
                },
                td as int,
            ),
            64 * td as int,
        ),
{
    let mut neg = tn_neg;
    let mut mag = tn_mag;
    if neg {
        if mag == 0 {
            // a zero angle carries no sign and is not wrapped
            neg = false;
        } else if mag <= td {
            mag = td - mag;
            neg = false;
        } else {
            mag = mag - td;
        }
    } else {
        if mag > td {
            mag = mag - td;
        }
    }
    proof {
        assert(wrap_num(
            if tn_neg {
                -(tn_mag as int)
            } else {
                tn_mag as int
            },
            td as int,
        ) == if neg {
            -(mag as int)
        } else {
            mag as int
        });
    }
    let d64 = q64 - p64;
    let vd = 64 * td;
    proof {
        assert(p64 * td <= 0x4_0000_0000 && q64 * td <= 0x4_0000_0000 && d64 * 6 * mag
            <= 0x18_0000_0000 && d64 * 2 * (2 * td) <= 0x10_0000_0000) by (nonlinear_arith)
            requires
                p64 <= 64,
                q64 <= 64,
                d64 <= 64,
                td <= 0x1000_0000,
                mag <= 0x1000_0000,
        ;
    }
    if neg {
        // still below zero after one wrap: the first segment's climb
        // starts from a negative angle, so the value can drop below 0
        // and quantizes to 0 there
        let a = p64 * td;
        let b = d64 * 6 * mag;
        proof {
            assert((q64 as int - p64 as int) * 6 * (0 - mag as int) == 0 - (q64 as int - p64
                as int) * 6 * (mag as int)) by (nonlinear_arith);
        }
        if b >= a {
            0
        } else {
            quantize_exec(a - b, vd)
        }
    } else {
        if 6 * mag < td {
            quantize_exec(p64 * td + d64 * 6 * mag, vd)
        } else if 2 * mag < td {
            quantize_exec(q64 * td, vd)
        } else if 3 * mag < 2 * td {
            proof {
                assert(d64 * 2 * (2 * td - 3 * mag) <= 0x10_0000_0000) by (nonlinear_arith)
                    requires
                        d64 <= 64,
                        td <= 0x1000_0000,
                        3 * mag < 2 * td,
                ;
            }
            quantize_exec(p64 * td + d64 * 2 * (2 * td - 3 * mag), vd)
        } else {
            quantize_exec(p64 * td, vd)
        }
    }
}

/// Generate the palette for hue-scale step count `h20`: exactly 256
/// packed colors, entry `i` being the conversion of index `i` as the
/// module description states. A zero scale would put a zero denominator
/// under the hue angle, so the caller keeps it nonzero; the magnitude
/// bound keeps the arithmetic exact in 64-bit words.
pub fn generate_palette(h20: i64) -> (palette: Vec<u32>)
    requires
        h20 != 0,
        -HUE_LIMIT_TWENTIETHS <= h20 <= HUE_LIMIT_TWENTIETHS,
    ensures
        palette@ == palette_spec(h20 as int),
        palette@.len() == PALETTE_SIZE,
{
    let neg_scale = h20 < 0;
    let habs: u64 = if h20 < 0 {
        (-h20) as u64
    } else {
        h20 as u64
    };
    let td: u64 = 192 * habs;
    let third: u64 = 64 * habs;
    let mut palette: Vec<u32> = Vec::new();
    let mut i: usize = 0;
    while i < PALETTE_SIZE
        invariant
            i <= 256,
            palette@.len() == i,
            0 < habs <= 1000000,
            habs == hue_abs(h20 as int),
            neg_scale == (h20 < 0),
            td == 192 * habs,
            third == 64 * habs,
            forall|k: int| 0 <= k < i ==> palette@[k] == palette_entry(h20 as int, k),
        decreases 256 - i,
    {
        let p64: u64 = if i < 64 {
            0
        } else if i < 128 {
            (i - 64) as u64
        } else {
            64
        };
        let q64: u64 = if i < 64 {
            i as u64
        } else {
            64
        };
        let base_mag: u64 = 15 * (i as u64);
        let g = channel_value(p64, q64, neg_scale, base_mag, td);
        let red_mag: u64 = if neg_scale {
            if base_mag <= third {
                third - base_mag
            } else {
                base_mag - third
            }
        } else {
            base_mag + third
        };
        let red_neg: bool = neg_scale && base_mag > third;
        let r = channel_value(p64, q64, red_neg, red_mag, td);
        let blue_mag: u64 = if neg_scale {
            base_mag + third
        } else if base_mag >= third {
            base_mag - third
        } else {
            third - base_mag
        };
        let blue_neg: bool = neg_scale || base_mag < third;
        let b = channel_value(p64, q64, blue_neg, blue_mag, td);
        let px: u32 = b as u32 + 256 * (g as u32) + 65536 * (r as u32);
        proof {
            assert(px == palette_entry(h20 as int, i as int));
        }
        palette.push(px);
        i = i + 1;
    }
    proof {
        assert(palette@ =~= palette_spec(h20 as int));
    }
    palette
}

/// Generate the palette if the scale is usable: `None` exactly when the
/// scale is zero (the hue angle's denominator would vanish) or beyond the
/// working magnitude limit, `Some` of the full palette otherwise.
pub fn try_generate_palette(h20: i64) -> (r: Option<Vec<u32>>)
    ensures
        match r {
            Some(palette) => h20 != 0 && -HUE_LIMIT_TWENTIETHS <= h20 <= HUE_LIMIT_TWENTIETHS
                && palette@ == palette_spec(h20 as int),
            None => h20 == 0 || h20 < -HUE_LIMIT_TWENTIETHS || h20 > HUE_LIMIT_TWENTIETHS,
        },
{
    if h20 != 0 && -HUE_LIMIT_TWENTIETHS <= h20 && h20 <= HUE_LIMIT_TWENTIETHS {
        Some(generate_palette(h20))
    } else {
        None
    }
}

/// The mutable hue state of a running simulation: the scale in
/// twentieths, started at 3.0 and nudged in steps of 0.05 by input
/// events, saturating at the working magnitude limit.
pub struct HueState {
    pub twentieths: i64,
}

impl HueState {
    pub open spec fn wf(self) -> bool {
        -HUE_LIMIT_TWENTIETHS <= self.twentieths <= HUE_LIMIT_TWENTIETHS
    }

    pub fn new() -> (s: HueState)
        ensures
            s.wf(),
            s.twentieths == HUE_DEFAULT_TWENTIETHS,
    {
        HueState { twentieths: HUE_DEFAULT_TWENTIETHS }
    }

    /// One step (0.05) up, saturating at the working limit.
    pub fn increase(&mut self)
        requires
            old(self).wf(),
        ensures
            final(self).wf(),
            final(self).twentieths as int == if old(self).twentieths < HUE_LIMIT_TWENTIETHS {
                old(self).twentieths + 1
            } else {
                old(self).twentieths as int
            },
    {
        if self.twentieths < HUE_LIMIT_TWENTIETHS {
            self.twentieths = self.twentieths + 1;
        }
    }

    /// One step (0.05) down, saturating at the working limit.
    pub fn decrease(&mut self)
        requires
            old(self).wf(),
        ensures
            final(self).wf(),
            final(self).twentieths as int == if old(self).twentieths > -HUE_LIMIT_TWENTIETHS {
                old(self).twentieths - 1
            } else {
                old(self).twentieths as int
            },
    {
        if self.twentieths > -HUE_LIMIT_TWENTIETHS {
            self.twentieths = self.twentieths - 1;
        }
    }

    pub fn scale_twentieths(&self) -> (t: i64)
        ensures
            t == self.twentieths,
    {
        self.twentieths
    }
}

/// Quantization always lands in [0, 255].
pub proof fn lemma_quantize_range(vn: int, vd: int)
    requires
        0 < vd,
    ensures
        0 <= quantize(vn, vd) <= 255,
{
    if vn <= 0 {
    } else if vn >= vd {
    } else {
        assert(0 <= (255 * vn) / vd < 255) by (nonlinear_arith)
            requires
                0 < vn < vd,
        ;
    }
}

/// Law: for every nonzero hue scale the palette has exactly 256 colors,
/// and every channel of every color lies in [0, 255].
pub proof fn lemma_palette_shape(h20: int)
    requires
        h20 != 0,
    ensures
        palette_spec(h20).len() == 256,
        forall|i: int|
            0 <= i < 256 ==> 0 <= #[trigger] red_of(h20, i) <= 255 && 0 <= green_of(h20, i) <= 255
                && 0 <= blue_of(h20, i) <= 255,
{
    assert forall|i: int|
        0 <= i < 256 implies 0 <= #[trigger] red_of(h20, i) <= 255 && 0 <= green_of(h20, i) <= 255
        && 0 <= blue_of(h20, i) <= 255 by {
        lemma_quantize_range(
            hue_channel_num(
                p64_of(i),
                q64_of(i),
                base_angle_num(h20, i) + 64 * hue_abs(h20),
                hue_den(h20),
            ),
            64 * hue_den(h20),
        );
        lemma_quantize_range(
            hue_channel_num(p64_of(i), q64_of(i), base_angle_num(h20, i), hue_den(h20)),
            64 * hue_den(h20),
        );
        lemma_quantize_range(
            hue_channel_num(
                p64_of(i),
                q64_of(i),
                base_angle_num(h20, i) - 64 * hue_abs(h20),
                hue_den(h20),
            ),
            64 * hue_den(h20),
        );
    }
}

/// Law: unpacking a palette entry recovers its three quantized channels —
/// the packed byte order is blue, green, red from the low byte up, with a
/// zero top byte.
pub proof fn lemma_entry_channels(h20: int, i: int)
    requires
        h20 != 0,
        0 <= i < 256,
    ensures
        red_byte(palette_entry(h20, i)) == red_of(h20, i),
        green_byte(palette_entry(h20, i)) == green_of(h20, i),
        blue_byte(palette_entry(h20, i)) == blue_of(h20, i),
        palette_entry(h20, i) < 0x1000000,
{
    lemma_palette_shape(h20);
    let r = red_of(h20, i);
    let g = green_of(h20, i);
    let b = blue_of(h20, i);
    let px = b + 256 * g + 65536 * r;
    assert(palette_entry(h20, i) == px);
    lemma_fundamental_div_mod_converse(px, 65536, r, b + 256 * g);
    assert(r % 256 == r) by {
        lemma_fundamental_div_mod_converse(r, 256, 0, r);
    }
    lemma_fundamental_div_mod_converse(px, 256, g + 256 * r, b);
    lemma_mod_multiples_vanish(r, g, 256);
    assert(g % 256 == g) by {
        lemma_fundamental_div_mod_converse(g, 256, 0, g);
    }
    lemma_mod_multiples_vanish(g + 256 * r, b, 256);
    assert(b % 256 == b) by {
        lemma_fundamental_div_mod_converse(b, 256, 0, b);
    }
}

/// The HSL mixing parameters really are the ones the lightness ramp and
/// full saturation dictate: as fractions over 256, `q` is `2*l` below the
/// half-lightness point and 1 after, and `p` is `2*l - q`.
pub proof fn lemma_pq_from_lightness(i: int)
    requires
        0 <= i < 256,
    ensures
        4 * q64_of(i) == if 2 * lightness256(i) < 256 {
            2 * lightness256(i)
        } else {
            256
        },
        4 * p64_of(i) == 2 * lightness256(i) - (if 2 * lightness256(i) < 256 {
            2 * lightness256(i)
        } else {
            256
        }),
{
}

/// Law: the lightness ramp is monotonically non-decreasing up to the
/// midpoint index.
pub proof fn lemma_lightness_monotone(i1: int, i2: int)
    requires
        0 <= i1 <= i2 <= 128,
    ensures
        lightness256(i1) <= lightness256(i2),
{
}

/// Law: from the midpoint index on, the lightness is constant at full
/// saturation.
pub proof fn lemma_lightness_saturated(i: int)
    requires
        128 <= i < 256,
    ensures
        lightness256(i) == 256,
{
}

/// Law: palette generation is idempotent — two palettes generated from
/// the same hue scale are bit-identical.
pub proof fn lemma_palette_idempotent(a: Seq<u32>, b: Seq<u32>, h20: int)
    requires
        a == palette_spec(h20),
        b == palette_spec(h20),
    ensures
        a == b,
{
}

} // verus!
