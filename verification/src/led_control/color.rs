use vstd::prelude::*;

verus! {

/// One RGB pixel color; each channel is an 8-bit intensity.
#[derive(Clone, Copy, Debug, PartialEq, Eq, Structural)]
pub struct Color {
    pub r: u8,
    pub g: u8,
    pub b: u8,
}

/// A channel scaled by the ratio `num / den` and rounded to the nearest
/// integer (ties round up).
pub open spec fn scaled_channel(ch: u8, num: u32, den: u32) -> int {
    (ch * num + den / 2) / (den as int)
}

/// The six-sector HSV cone mapped onto bytes: hue, saturation and value all
/// range over 0..=255, with the hue byte standing for 0..=360 degrees.
/// `hsv_sector` picks the 60-degree sector, `hsv_frac` the position inside it
/// (0..=254 standing for [0, 1)).
pub open spec fn hsv_sector(h: u8) -> int {
    (h * 6) / 255
}

pub open spec fn hsv_frac(h: u8) -> int {
    (h * 6) % 255
}

/// The three derived intensities of the sector formula, scaled back to bytes.
pub open spec fn hsv_low(s: u8, v: u8) -> int {
    (v * (255 - s)) / 255
}

pub open spec fn hsv_falling(s: u8, v: u8, f: int) -> int {
    (v * (255 - (s * f) / 255)) / 255
}

pub open spec fn hsv_rising(s: u8, v: u8, f: int) -> int {
    (v * (255 - (s * (255 - f)) / 255)) / 255
}

/// The full HSV-to-RGB sector formula over bytes.
pub open spec fn hsv_rgb(h: u8, s: u8, v: u8) -> Color {
    let f = hsv_frac(h);
    let p = hsv_low(s, v) as u8;
    let q = hsv_falling(s, v, f) as u8;
    let t = hsv_rising(s, v, f) as u8;
    if hsv_sector(h) == 0 {
        Color { r: v, g: t, b: p }
    } else if hsv_sector(h) == 1 {
        Color { r: q, g: v, b: p }
    } else if hsv_sector(h) == 2 {
        Color { r: p, g: v, b: t }
    } else if hsv_sector(h) == 3 {
        Color { r: p, g: q, b: v }
    } else if hsv_sector(h) == 4 {
        Color { r: t, g: p, b: v }
    } else if hsv_sector(h) == 5 {
        Color { r: v, g: p, b: q }
    } else {
        // h == 255 maps to exactly 360 degrees, which wraps to sector 0;
        // its fraction is 0 there, so t coincides with p.
        Color { r: v, g: t, b: p }
    }
}

/// Rounded scaling of one channel; the workhorse of `Color::mul` and of the
/// warm-tint correction.
pub fn scale_channel(ch: u8, num: u32, den: u32) -> (out: u8)
    requires
        0 < den,
        num <= den,
    ensures
        out == scaled_channel(ch, num, den),
{
    proof {
        lemma_scaled_channel_le(ch, num, den);
        assert(ch * num <= 255 * 0xffff_ffffu64) by (nonlinear_arith)
            requires
                ch <= 255,
                num <= 0xffff_ffffu64,
        ;
    }
    let wide: u64 = (ch as u64) * (num as u64) + ((den / 2) as u64);
    (wide / (den as u64)) as u8
}

/// A scaled channel never rises above the channel it came from.
pub proof fn lemma_scaled_channel_le(ch: u8, num: u32, den: u32)
    requires
        0 < den,
        num <= den,
    ensures
        0 <= scaled_channel(ch, num, den) <= ch,
{
    assert(0 <= (ch * num + den / 2) / (den as int) <= ch) by (nonlinear_arith)
        requires
            0 < den,
            num <= den,
    ;
}

/// Scaling is monotone in the ratio: a smaller fraction of the same color is
/// never brighter. The two ratios are compared as `n1/d1 <= n2/d2`, that is
/// `n1 * d2 <= n2 * d1`.
pub proof fn lemma_scaled_channel_monotonic(ch: u8, n1: u32, d1: u32, n2: u32, d2: u32)
    requires
        0 < d1,
        0 < d2,
        n1 <= d1,
        n2 <= d2,
        n1 * d2 <= n2 * d1,
    ensures
        scaled_channel(ch, n1, d1) <= scaled_channel(ch, n2, d2),
{
    let x1: int = ch * n1 + d1 / 2;
    let x2: int = ch * n2 + d2 / 2;
    let q1: int = x1 / (d1 as int);
    let q2: int = x2 / (d2 as int);
    if q2 < q1 {
        vstd::arithmetic::div_mod::lemma_fundamental_div_mod(x1, d1 as int);
        vstd::arithmetic::div_mod::lemma_fundamental_div_mod(x2, d2 as int);
        let r1: int = x1 % (d1 as int);
        let r2: int = x2 % (d2 as int);
        // Double both sides of each division bound to absorb the floored
        // halves of d1 and d2, then cross-multiply the two bounds.
        assert(2 * (ch * n1) >= d1 * (2 * q1 - 1)) by (nonlinear_arith)
            requires
                x1 == d1 * q1 + r1,
                0 <= r1,
                x1 == ch * n1 + d1 / 2,
                2 * (d1 / 2) <= d1,
                0 < d1,
        ;
        assert(2 * (ch * n2) < d2 * (2 * q1 - 1)) by (nonlinear_arith)
            requires
                x2 == d2 * q2 + r2,
                r2 < d2,
                x2 == ch * n2 + d2 / 2,
                q2 + 1 <= q1,
                d2 - 1 <= 2 * (d2 / 2),
                0 < d2,
        ;
        assert(false) by (nonlinear_arith)
            requires
                2 * (ch * n1) >= d1 * (2 * q1 - 1),
                2 * (ch * n2) < d2 * (2 * q1 - 1),
                n1 * d2 <= n2 * d1,
                0 <= ch,
                0 < d1,
                0 < d2,
        ;
    }
}

/// Scaling by a ratio within [0, 1] keeps every channel within the original
/// channel's range.
pub proof fn lemma_mul_within(c: Color, num: u32, den: u32)
    requires
        0 < den,
        num <= den,
    ensures
        0 <= scaled_channel(c.r, num, den) <= c.r,
        0 <= scaled_channel(c.g, num, den) <= c.g,
        0 <= scaled_channel(c.b, num, den) <= c.b,
{
    lemma_scaled_channel_le(c.r, num, den);
    lemma_scaled_channel_le(c.g, num, den);
    lemma_scaled_channel_le(c.b, num, den);
}

/// Scaling is monotone in the ratio on every channel: with `n1/d1 <= n2/d2`
/// (that is, `n1 * d2 <= n2 * d1`), the first scaling is nowhere brighter.
pub proof fn lemma_mul_monotonic(c: Color, n1: u32, d1: u32, n2: u32, d2: u32)
    requires
        0 < d1,
        0 < d2,
        n1 <= d1,
        n2 <= d2,
        n1 * d2 <= n2 * d1,
    ensures
        scaled_channel(c.r, n1, d1) <= scaled_channel(c.r, n2, d2),
        scaled_channel(c.g, n1, d1) <= scaled_channel(c.g, n2, d2),
        scaled_channel(c.b, n1, d1) <= scaled_channel(c.b, n2, d2),
{
    lemma_scaled_channel_monotonic(c.r, n1, d1, n2, d2);
    lemma_scaled_channel_monotonic(c.g, n1, d1, n2, d2);
    lemma_scaled_channel_monotonic(c.b, n1, d1, n2, d2);
}

impl Color {
    /// A color built directly from its three channels.
    pub fn rgb(r: u8, g: u8, b: u8) -> (c: Self)
        ensures
            c == (Color { r, g, b }),
    {
        Color { r, g, b }
    }

    /// A color built from hue, saturation and value bytes by the six-sector
    /// HSV formula.
    pub fn hsv(h: u8, s: u8, v: u8) -> (c: Self)
        ensures
            c == hsv_rgb(h, s, v),
    {
        let hs: u32 = (h as u32) * 6;
        let sector: u32 = hs / 255;
        let f: u32 = hs % 255;
        proof {
            lemma_hsv_parts_bounded(h, s, v);
            assert(s * f <= 255 * 254) by (nonlinear_arith)
                requires
                    s <= 255,
                    0 <= f < 255,
            ;
            assert(s * (255 - f) <= 255 * 255) by (nonlinear_arith)
                requires
                    s <= 255,
                    0 <= f < 255,
            ;
        }
        let sf: u32 = ((s as u32) * f) / 255;
        let sr: u32 = ((s as u32) * (255 - f)) / 255;
        proof {
            assert(v * (255 - s) <= 255 * 255) by (nonlinear_arith)
                requires
                    v <= 255,
                    s <= 255,
            ;
            assert(v * (255 - sf) <= 255 * 255) by (nonlinear_arith)
                requires
                    v <= 255,
                    sf <= 255,
            ;
            assert(v * (255 - sr) <= 255 * 255) by (nonlinear_arith)
                requires
                    v <= 255,
                    sr <= 255,
            ;
        }
        let p: u8 = ((v as u32) * (255 - s as u32) / 255) as u8;
        let q: u8 = ((v as u32) * (255 - sf) / 255) as u8;
        let t: u8 = ((v as u32) * (255 - sr) / 255) as u8;
        if sector == 0 {
            Color { r: v, g: t, b: p }
        } else if sector == 1 {
            Color { r: q, g: v, b: p }
        } else if sector == 2 {
            Color { r: p, g: v, b: t }
        } else if sector == 3 {
            Color { r: p, g: q, b: v }
        } else if sector == 4 {
            Color { r: t, g: p, b: v }
        } else if sector == 5 {
            Color { r: v, g: p, b: q }
        } else {
            // the top hue byte wraps around to sector 0
            Color { r: v, g: t, b: p }
        }
    }

    /// All channels dark.
    pub fn black() -> (c: Self)
        ensures
            c == (Color { r: 0, g: 0, b: 0 }),
    {
        Self::rgb(0, 0, 0)
    }

    /// All channels at full intensity.
    pub fn white() -> (c: Self)
        ensures
            c == (Color { r: 255, g: 255, b: 255 }),
    {
        Self::rgb(255, 255, 255)
    }

    /// Every channel scaled by `num / den`, rounded to nearest. The ratio is
    /// meant for fade curves and must stay within [0, 1]; larger ratios are
    /// for callers to avoid, hence the precondition.
    pub fn mul(self, num: u32, den: u32) -> (c: Self)
        requires
            0 < den,
            num <= den,
        ensures
            c.r == scaled_channel(self.r, num, den),
            c.g == scaled_channel(self.g, num, den),
            c.b == scaled_channel(self.b, num, den),
    {
        Color {
            r: scale_channel(self.r, num, den),
            g: scale_channel(self.g, num, den),
            b: scale_channel(self.b, num, den),
        }
    }
}

impl Default for Color {
    /// The default pixel color is black.
    fn default() -> (c: Self)
        ensures
            c == (Color { r: 0, g: 0, b: 0 }),
    {
        Color::black()
    }
}

/// The three derived HSV intensities stay within the value channel, so the
/// sector formula never leaves the byte range.
pub proof fn lemma_hsv_parts_bounded(h: u8, s: u8, v: u8)
    ensures
        0 <= hsv_low(s, v) <= v,
        0 <= hsv_falling(s, v, hsv_frac(h)) <= v,
        0 <= hsv_rising(s, v, hsv_frac(h)) <= v,
        0 <= hsv_frac(h) < 255,
        0 <= hsv_sector(h) <= 6,
{
    let f = hsv_frac(h);
    assert(0 <= f < 255);
    assert(0 <= (h * 6) / 255 <= 6) by (nonlinear_arith)
        requires
            h <= 255,
    ;
    assert(0 <= (v * (255 - s)) / 255 <= v) by (nonlinear_arith)
        requires
            s <= 255,
            v <= 255,
    ;
    assert(0 <= (s * f) / 255 <= s) by (nonlinear_arith)
        requires
            s <= 255,
            0 <= f < 255,
    ;
    assert(0 <= (v * (255 - (s * f) / 255)) / 255 <= v) by (nonlinear_arith)
        requires
            v <= 255,
            0 <= (s * f) / 255 <= s <= 255,
    ;
    assert(0 <= (s * (255 - f)) / 255 <= s) by (nonlinear_arith)
        requires
            s <= 255,
            0 <= f < 255,
    ;
    assert(0 <= (v * (255 - (s * (255 - f)) / 255)) / 255 <= v) by (nonlinear_arith)
        requires
            v <= 255,
            0 <= (s * (255 - f)) / 255 <= s <= 255,
    ;
}

/// The value byte caps and sets the peak brightness: no channel exceeds
/// `v`, and one channel reaches it exactly.
pub proof fn lemma_hsv_peak_channel(h: u8, s: u8, v: u8)
    ensures
        hsv_rgb(h, s, v).r <= v,
        hsv_rgb(h, s, v).g <= v,
        hsv_rgb(h, s, v).b <= v,
        hsv_rgb(h, s, v).r == v || hsv_rgb(h, s, v).g == v || hsv_rgb(h, s, v).b == v,
{
    lemma_hsv_parts_bounded(h, s, v);
}

/// A fully desaturated color is a pure gray: the hue byte cannot matter.
pub proof fn lemma_hsv_desaturated_is_gray(h: u8, v: u8)
    ensures
        hsv_rgb(h, 0, v).r == hsv_rgb(h, 0, v).g,
        hsv_rgb(h, 0, v).g == hsv_rgb(h, 0, v).b,
{
    let f = hsv_frac(h);
    assert((v * (255 - 0)) / 255 == v) by (nonlinear_arith)
        requires
            v <= 255,
    ;
    assert((0 * f) / 255 == 0);
    assert((0 * (255 - f)) / 255 == 0);
    lemma_hsv_parts_bounded(h, 0, v);
}

} // verus!
