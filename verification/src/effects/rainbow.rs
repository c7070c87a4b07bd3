use vstd::prelude::*;
use super::{Effect, RenderError};
use crate::led_control::color::Color;
use crate::led_control::segment::Segment;

verus! {

/// Brightness lookup table: an approximately sinusoidal hump over the first
/// 240 degrees, dark for the rest. Reading it at three phase offsets 120
/// degrees apart yields a smooth RGB sweep without runtime trigonometry.
pub const LIGHTS: [u8; 360] = [
    0, 0, 0, 0, 0, 1, 1, 2,
    2, 3, 4, 5, 6, 7, 8, 9,
    11, 12, 13, 15, 17, 18, 20, 22,
    24, 26, 28, 30, 32, 35, 37, 39,
    42, 44, 47, 49, 52, 55, 58, 60,
    63, 66, 69, 72, 75, 78, 81, 85,
    88, 91, 94, 97, 101, 104, 107, 111,
    114, 117, 121, 124, 127, 131, 134, 137,
    141, 144, 147, 150, 154, 157, 160, 163,
    167, 170, 173, 176, 179, 182, 185, 188,
    191, 194, 197, 200, 202, 205, 208, 210,
    213, 215, 217, 220, 222, 224, 226, 229,
    231, 232, 234, 236, 238, 239, 241, 242,
    244, 245, 246, 248, 249, 250, 251, 251,
    252, 253, 253, 254, 254, 255, 255, 255,
    255, 255, 255, 255, 254, 254, 253, 253,
    252, 251, 251, 250, 249, 248, 246, 245,
    244, 242, 241, 239, 238, 236, 234, 232,
    231, 229, 226, 224, 222, 220, 217, 215,
    213, 210, 208, 205, 202, 200, 197, 194,
    191, 188, 185, 182, 179, 176, 173, 170,
    167, 163, 160, 157, 154, 150, 147, 144,
    141, 137, 134, 131, 127, 124, 121, 117,
    114, 111, 107, 104, 101, 97, 94, 91,
    88, 85, 81, 78, 75, 72, 69, 66,
    63, 60, 58, 55, 52, 49, 47, 44,
    42, 39, 37, 35, 32, 30, 28, 26,
    24, 22, 20, 18, 17, 15, 13, 12,
    11, 9, 8, 7, 6, 5, 4, 3,
    2, 2, 1, 1, 0, 0, 0, 0,
    0, 0, 0, 0, 0, 0, 0, 0,
    0, 0, 0, 0, 0, 0, 0, 0,
    0, 0, 0, 0, 0, 0, 0, 0,
    0, 0, 0, 0, 0, 0, 0, 0,
    0, 0, 0, 0, 0, 0, 0, 0,
    0, 0, 0, 0, 0, 0, 0, 0,
    0, 0, 0, 0, 0, 0, 0, 0,
    0, 0, 0, 0, 0, 0, 0, 0,
    0, 0, 0, 0, 0, 0, 0, 0,
    0, 0, 0, 0, 0, 0, 0, 0,
    0, 0, 0, 0, 0, 0, 0, 0,
    0, 0, 0, 0, 0, 0, 0, 0,
    0, 0, 0, 0, 0, 0, 0, 0,
    0, 0, 0, 0, 0, 0, 0, 0,
    0, 0, 0, 0, 0, 0, 0, 0,
];

/// The color the sweep shows at an accumulated phase of `deg` degrees: the
/// brightness table read at three offsets 120 degrees apart, the middle
/// lookup feeding the blue channel.
pub open spec fn rgb_from_deg_spec(deg: int) -> Color {
    Color {
        r: LIGHTS[(deg + 120) % 360],
        g: LIGHTS[(deg + 240) % 360],
        b: LIGHTS[deg % 360],
    }
}

/// Table lookup for one phase, as executable code.
pub fn get_rgb_from_deg(deg: usize) -> (c: Color)
    requires
        deg < 360,
    ensures
        c == rgb_from_deg_spec(deg as int),
{
    Color::rgb(LIGHTS[(deg + 120) % 360], LIGHTS[(deg + 240) % 360], LIGHTS[deg % 360])
}

/// A phase-shifted sweep across the brightness table: each LED sits a fixed
/// number of degrees behind its neighbor, and the whole pattern slides by a
/// fixed number of degrees per tick, wrapping at 360.
pub struct Rainbow {
    /// Phase difference between adjacent LEDs, in degrees.
    pub deg_per_led: usize,
    /// How far the pattern slides each tick, in degrees.
    pub deg_per_tick: usize,
    /// Accumulated phase of the first LED, always in 0..360.
    pub start_deg: usize,
}

impl Rainbow {
    /// A sweep that starts at phase zero, keeping both step widths as given.
    pub fn init(deg_per_led: usize, deg_per_tick: usize) -> (e: Self)
        ensures
            e.deg_per_led == deg_per_led,
            e.deg_per_tick == deg_per_tick,
            e.start_deg == 0,
            e.inv(),
    {
        Rainbow { deg_per_led, deg_per_tick, start_deg: 0 }
    }
}

impl Effect for Rainbow {
    open spec fn inv(&self) -> bool {
        self.start_deg < 360
    }

    /// Every LED is repainted from the table at its own phase, and the whole
    /// pattern then slides by `deg_per_tick`.
    open spec fn tick_ens(
        &self,
        post: &Self,
        pre_seg: Seq<Color>,
        post_seg: Seq<Color>,
        elapsed_ms: u64,
        r: Result<(), RenderError>,
    ) -> bool {
        &&& r is Ok
        &&& post_seg.len() == pre_seg.len()
        &&& forall|i: int|
            0 <= i < post_seg.len()
                ==> post_seg[i] == rgb_from_deg_spec(
                (self.start_deg + i * self.deg_per_led) % 360,
            )
        &&& post.start_deg == (self.start_deg + self.deg_per_tick) % 360
        &&& post.deg_per_led == self.deg_per_led
        &&& post.deg_per_tick == self.deg_per_tick
    }

    fn tick(&mut self, segment: &mut Segment, _elapsed_ms: u64) -> (r: Result<(), RenderError>) {
        let count: usize = segment.len();
        let start: usize = self.start_deg;
        let raw: usize = self.deg_per_led;
        let dpl: usize = raw % 360;
        let mut cur_deg: usize = start;
        let mut i: usize = 0;
        while i < count
            invariant
                i <= count,
                start < 360,
                dpl == raw % 360,
                dpl < 360,
                cur_deg < 360,
                cur_deg == (start + i * dpl) % 360,
                segment@.len() == count,
                forall|j: int|
                    0 <= j < i ==> segment@[j] == rgb_from_deg_spec((start + j * raw) % 360),
            decreases count - i,
        {
            segment.set_led(i, get_rgb_from_deg(cur_deg));
            proof {
                lemma_normalized_phase(start as int, i as int, raw as int);
                lemma_phase_step(start as int, i as int, dpl as int);
            }
            cur_deg = (cur_deg + dpl) % 360;
            i = i + 1;
        }
        proof {
            vstd::arithmetic::div_mod::lemma_add_mod_noop_right(
                self.start_deg as int,
                self.deg_per_tick as int,
                360,
            );
        }
        self.start_deg = (self.start_deg + self.deg_per_tick % 360) % 360;
        Ok(())
    }
}

/// Stepping the phase by a width taken modulo 360 lands on the same residue
/// as stepping by the raw width.
proof fn lemma_normalized_phase(start: int, i: int, raw: int)
    requires
        0 <= start,
        0 <= i,
        0 <= raw,
    ensures
        (start + i * (raw % 360)) % 360 == (start + i * raw) % 360,
{
    vstd::arithmetic::div_mod::lemma_mul_mod_noop_right(i, raw, 360);
    vstd::arithmetic::div_mod::lemma_add_mod_noop_right(start, i * (raw % 360), 360);
    vstd::arithmetic::div_mod::lemma_add_mod_noop_right(start, i * raw, 360);
}

/// Advancing an already-wrapped phase by one more step and wrapping again
/// lands on the same residue as wrapping the unwrapped sum.
proof fn lemma_phase_step(start: int, i: int, dpl: int)
    requires
        0 <= start,
        0 <= i,
        0 <= dpl < 360,
    ensures
        ((start + i * dpl) % 360 + dpl) % 360 == (start + (i + 1) * dpl) % 360,
{
    let a = start + i * dpl;
    vstd::arithmetic::div_mod::lemma_add_mod_noop(a, dpl, 360);
    assert(dpl % 360 == dpl);
    assert((i + 1) * dpl == i * dpl + dpl) by (nonlinear_arith);
    vstd::arithmetic::div_mod::lemma_mod_twice(a, 360);
}

/// With zero degrees per LED every pixel of a tick receives the identical
/// color.
pub proof fn lemma_rainbow_uniform(
    pre: Rainbow,
    post: Rainbow,
    pre_seg: Seq<Color>,
    post_seg: Seq<Color>,
    elapsed_ms: u64,
    r: Result<(), RenderError>,
)
    requires
        pre.deg_per_led == 0,
        pre.tick_ens(&post, pre_seg, post_seg, elapsed_ms, r),
    ensures
        forall|i: int, j: int|
            0 <= i < post_seg.len() && 0 <= j < post_seg.len() ==> post_seg[i] == post_seg[j],
{
    assert forall|i: int, j: int|
        0 <= i < post_seg.len() && 0 <= j < post_seg.len() implies post_seg[i] == post_seg[j] by {
        assert(i * 0 == 0);
        assert(j * 0 == 0);
    }
}

/// The sweep is periodic with period 360 in accumulated phase.
pub proof fn lemma_rainbow_periodic(deg: int)
    ensures
        rgb_from_deg_spec(deg + 360) == rgb_from_deg_spec(deg),
{
    vstd::arithmetic::div_mod::lemma_mod_add_multiples_vanish(deg + 120, 360);
    vstd::arithmetic::div_mod::lemma_mod_add_multiples_vanish(deg, 360);
    vstd::arithmetic::div_mod::lemma_mod_add_multiples_vanish(deg + 240, 360);
}

} // verus!
