use vstd::prelude::*;
use super::{Effect, RenderError, random_in_range};
use crate::led_control::color::{scale_channel, scaled_channel, Color};
use crate::led_control::segment::Segment;

verus! {

// All durations are millisecond counts; every randomized one is drawn
// uniformly from a fixed range at the instant its state is entered.
pub const INIT_ON_TIME_MS: u64 = 15_000;
pub const FADE_TIME_MS: u64 = 2_000;
pub const CLOSED_MS_MIN: u64 = 30_000;
pub const CLOSED_MS_MAX: u64 = 60_000;
pub const ON_MS_MIN: u64 = 120_000;
pub const ON_MS_MAX: u64 = 300_000;
pub const BLINK_GAP_MS_MIN: u64 = 2_000;
pub const BLINK_GAP_MS_MAX: u64 = 30_000;
pub const BLINK_MS_MIN: u64 = 200;
pub const BLINK_MS_MAX: u64 = 500;

// Warm-tint correction ratios, one per channel, each over 255.
pub const TINT_NUM_R: u32 = 255;
pub const TINT_NUM_G: u32 = 224;
pub const TINT_NUM_B: u32 = 140;

/// The palette an eye pair draws its base color from.
pub open spec fn palette_red() -> Color {
    Color { r: 153, g: 0, b: 0 }
}

pub open spec fn palette_orange() -> Color {
    Color { r: 178, g: 115, b: 0 }
}

pub open spec fn palette_green() -> Color {
    Color { r: 51, g: 102, b: 0 }
}

/// Each channel corrected by the fixed warm-tint ratio.
pub open spec fn warm_tinted(c: Color) -> Color {
    Color {
        r: scaled_channel(c.r, TINT_NUM_R, 255) as u8,
        g: scaled_channel(c.g, TINT_NUM_G, 255) as u8,
        b: scaled_channel(c.b, TINT_NUM_B, 255) as u8,
    }
}

/// A display color an eye pair can hold: one of the three palette colors,
/// warm-tinted.
pub open spec fn is_eye_color(c: Color) -> bool {
    ||| c == warm_tinted(palette_red())
    ||| c == warm_tinted(palette_orange())
    ||| c == warm_tinted(palette_green())
}

/// Apply the warm tint to a base color.
fn apply_warm_tint(c: Color) -> (t: Color)
    ensures
        t == warm_tinted(c),
{
    proof {
        crate::led_control::color::lemma_scaled_channel_le(c.r, TINT_NUM_R, 255);
        crate::led_control::color::lemma_scaled_channel_le(c.g, TINT_NUM_G, 255);
        crate::led_control::color::lemma_scaled_channel_le(c.b, TINT_NUM_B, 255);
    }
    Color {
        r: scale_channel(c.r, TINT_NUM_R, 255),
        g: scale_channel(c.g, TINT_NUM_G, 255),
        b: scale_channel(c.b, TINT_NUM_B, 255),
    }
}

/// Draw a base color from the palette by the explicit integer weights
/// 80/15/5.
fn draw_base_color() -> (c: Color)
    ensures
        c == palette_red() || c == palette_orange() || c == palette_green(),
{
    let roll: u64 = random_in_range(0, 99);
    if roll < 80 {
        Color { r: 153, g: 0, b: 0 }
    } else if roll < 95 {
        Color { r: 178, g: 115, b: 0 }
    } else {
        Color { r: 51, g: 102, b: 0 }
    }
}

/// Where an eye pair is in its perpetual wake/stare/blink/sleep cycle. Each
/// variant holds the milliseconds remaining until its next transition; an
/// `Opened` pair also counts down to its next blink, and a `Blinking` pair
/// carries its frozen remaining-on time alongside the blink countdown.
#[derive(Clone, Copy, Debug, PartialEq, Eq, Structural)]
pub enum EyeState {
    Closed(u64),
    Opened(u64, u64),
    Opening(u64),
    Closing(u64),
    Blinking(u64, u64),
}

/// Fade countdowns never exceed the fade length they started from.
pub open spec fn eye_state_wf(s: EyeState) -> bool {
    match s {
        EyeState::Opening(rem) => rem <= FADE_TIME_MS,
        EyeState::Closing(rem) => rem <= FADE_TIME_MS,
        _ => true,
    }
}

impl EyeState {
    /// Sleep for a freshly drawn closed duration.
    pub fn set_closed() -> (s: Self)
        ensures
            s matches EyeState::Closed(d) && CLOSED_MS_MIN <= d <= CLOSED_MS_MAX,
            eye_state_wf(s),
    {
        let secs: u64 = random_in_range(CLOSED_MS_MIN / 1000, CLOSED_MS_MAX / 1000);
        EyeState::Closed(secs * 1000)
    }

    /// Stare for freshly drawn on and next-blink durations.
    pub fn set_opened() -> (s: Self)
        ensures
            s matches EyeState::Opened(on, gap) && ON_MS_MIN <= on <= ON_MS_MAX
                && BLINK_GAP_MS_MIN <= gap <= BLINK_GAP_MS_MAX,
            eye_state_wf(s),
    {
        let secs_on: u64 = random_in_range(ON_MS_MIN / 1000, ON_MS_MAX / 1000);
        let secs_gap: u64 = random_in_range(BLINK_GAP_MS_MIN / 1000, BLINK_GAP_MS_MAX / 1000);
        EyeState::Opened(secs_on * 1000, secs_gap * 1000)
    }

    /// Stare for a caller-chosen on duration, with a fresh next-blink draw.
    pub fn set_opened_for(on_ms: u64) -> (s: Self)
        ensures
            s matches EyeState::Opened(on, gap) && on == on_ms
                && BLINK_GAP_MS_MIN <= gap <= BLINK_GAP_MS_MAX,
            eye_state_wf(s),
    {
        let secs_gap: u64 = random_in_range(BLINK_GAP_MS_MIN / 1000, BLINK_GAP_MS_MAX / 1000);
        EyeState::Opened(on_ms, secs_gap * 1000)
    }

    /// Begin the fixed-length fade in.
    pub fn set_opening() -> (s: Self)
        ensures
            s == EyeState::Opening(FADE_TIME_MS),
            eye_state_wf(s),
    {
        EyeState::Opening(FADE_TIME_MS)
    }

    /// Begin the fixed-length fade out.
    pub fn set_closing() -> (s: Self)
        ensures
            s == EyeState::Closing(FADE_TIME_MS),
            eye_state_wf(s),
    {
        EyeState::Closing(FADE_TIME_MS)
    }

    /// Return from a blink, keeping the frozen remaining-on time.
    pub fn set_reopened(remaining_on: u64) -> (s: Self)
        ensures
            s matches EyeState::Opened(on, gap) && on == remaining_on
                && BLINK_GAP_MS_MIN <= gap <= BLINK_GAP_MS_MAX,
            eye_state_wf(s),
    {
        let secs_gap: u64 = random_in_range(BLINK_GAP_MS_MIN / 1000, BLINK_GAP_MS_MAX / 1000);
        EyeState::Opened(remaining_on, secs_gap * 1000)
    }
}

/// One pair of eyes: two adjacent segment indices animated together, a
/// life-cycle state, and the resolved display color.
pub struct EyePair {
    /// The two segment indices this pair paints. Held by value; whether they
    /// are inside the segment is re-checked at every write.
    pub indices: (usize, usize),
    pub state: EyeState,
    pub color: Color,
}

/// A color with every channel scaled by `num / den`, rounded to nearest.
pub open spec fn color_scaled(c: Color, num: u32, den: u32) -> Color {
    Color {
        r: scaled_channel(c.r, num, den) as u8,
        g: scaled_channel(c.g, num, den) as u8,
        b: scaled_channel(c.b, num, den) as u8,
    }
}

/// The color an eye pair shows on a tick, fully determined by its pre-tick
/// state and the elapsed time. On a boundary tick the pair still renders by
/// the state it is leaving; the new state's look first shows a tick later.
pub open spec fn eye_rendered(pre: EyePair, elapsed_ms: u64) -> Color {
    match pre.state {
        EyeState::Closed(_) => Color { r: 0, g: 0, b: 0 },
        EyeState::Opened(_, _) => pre.color,
        EyeState::Opening(rem) => {
            let rem2 = rem.saturating_sub(elapsed_ms);
            if rem2 == 0 {
                pre.color
            } else {
                color_scaled(pre.color, (FADE_TIME_MS - rem2) as u32, FADE_TIME_MS as u32)
            }
        },
        EyeState::Closing(rem) => {
            let rem2 = rem.saturating_sub(elapsed_ms);
            if rem2 == 0 {
                Color { r: 0, g: 0, b: 0 }
            } else {
                color_scaled(pre.color, rem2 as u32, FADE_TIME_MS as u32)
            }
        },
        EyeState::Blinking(_, bl) => {
            let bl2 = bl.saturating_sub(elapsed_ms);
            if bl2 == 0 {
                pre.color
            } else {
                Color { r: 0, g: 0, b: 0 }
            }
        },
    }
}

/// How one tick moves an eye pair's state: the per-state transition table,
/// with each randomized duration pinned only to its configured range.
pub open spec fn eye_step(pre: EyePair, post: EyePair, elapsed_ms: u64) -> bool {
    &&& post.indices == pre.indices
    &&& match pre.state {
        EyeState::Closed(rem) => {
            let rem2 = rem.saturating_sub(elapsed_ms);
            if rem2 == 0 {
                &&& is_eye_color(post.color)
                &&& post.state == EyeState::Opening(FADE_TIME_MS)
            } else {
                &&& post.color == pre.color
                &&& post.state == EyeState::Closed(rem2)
            }
        },
        EyeState::Opened(on, gap) => {
            let on2 = on.saturating_sub(elapsed_ms);
            let gap2 = gap.saturating_sub(elapsed_ms);
            &&& post.color == pre.color
            &&& if on2 == 0 {
                post.state == EyeState::Closing(FADE_TIME_MS)
            } else if gap2 == 0 {
                post.state matches EyeState::Blinking(o, b) && o == on2 && BLINK_MS_MIN <= b
                    <= BLINK_MS_MAX
            } else {
                post.state == EyeState::Opened(on2, gap2)
            }
        },
        EyeState::Opening(rem) => {
            let rem2 = rem.saturating_sub(elapsed_ms);
            &&& post.color == pre.color
            &&& if rem2 == 0 {
                post.state matches EyeState::Opened(on, gap) && ON_MS_MIN <= on <= ON_MS_MAX
                    && BLINK_GAP_MS_MIN <= gap <= BLINK_GAP_MS_MAX
            } else {
                post.state == EyeState::Opening(rem2)
            }
        },
        EyeState::Closing(rem) => {
            let rem2 = rem.saturating_sub(elapsed_ms);
            &&& post.color == pre.color
            &&& if rem2 == 0 {
                post.state matches EyeState::Closed(d) && CLOSED_MS_MIN <= d <= CLOSED_MS_MAX
            } else {
                post.state == EyeState::Closing(rem2)
            }
        },
        EyeState::Blinking(on, bl) => {
            let bl2 = bl.saturating_sub(elapsed_ms);
            &&& post.color == pre.color
            &&& if bl2 == 0 {
                post.state matches EyeState::Opened(o, gap) && o == on && BLINK_GAP_MS_MIN <= gap
                    <= BLINK_GAP_MS_MAX
            } else {
                post.state == EyeState::Blinking(on, bl2)
            }
        },
    }
}

/// A tolerant single-index write: the stored image after writing `c` at
/// `idx`, which is the image unchanged when `idx` is out of range.
pub open spec fn written(s: Seq<Color>, idx: int, c: Color) -> Seq<Color> {
    if 0 <= idx < s.len() {
        s.update(idx, c)
    } else {
        s
    }
}

impl EyePair {
    /// A pair at the given indices with a freshly drawn palette color,
    /// starting already awake.
    pub fn new(indices: (usize, usize)) -> (p: Self)
        ensures
            p.indices == indices,
            is_eye_color(p.color),
            p.state matches EyeState::Opened(on, gap) && on == INIT_ON_TIME_MS
                && BLINK_GAP_MS_MIN <= gap <= BLINK_GAP_MS_MAX,
            eye_state_wf(p.state),
    {
        let color = draw_base_color();
        Self::new_with_color(indices, color)
    }

    /// A pair at the given indices showing the warm-tinted form of `color`,
    /// starting already awake so the display is immediately active.
    pub fn new_with_color(indices: (usize, usize), color: Color) -> (p: Self)
        ensures
            p.indices == indices,
            p.color == warm_tinted(color),
            p.state matches EyeState::Opened(on, gap) && on == INIT_ON_TIME_MS
                && BLINK_GAP_MS_MIN <= gap <= BLINK_GAP_MS_MAX,
            eye_state_wf(p.state),
    {
        EyePair {
            indices,
            state: EyeState::set_opened_for(INIT_ON_TIME_MS),
            color: apply_warm_tint(color),
        }
    }

    /// Advance this pair by `elapsed_ms` and paint its one resolved color to
    /// both of its indices, each write skipped if out of range.
    pub fn tick(&mut self, elapsed_ms: u64, segment: &mut Segment)
        requires
            eye_state_wf(old(self).state),
        ensures
            eye_state_wf(final(self).state),
            eye_step(*old(self), *final(self), elapsed_ms),
            final(segment)@ == written(
                written(old(segment)@, old(self).indices.0 as int, eye_rendered(*old(self), elapsed_ms)),
                old(self).indices.1 as int,
                eye_rendered(*old(self), elapsed_ms),
            ),
            final(segment)@.len() == old(segment)@.len(),
    {
        let new_color: Color;
        match self.state {
            EyeState::Closed(rem) => {
                let rem2: u64 = rem.saturating_sub(elapsed_ms);
                if rem2 == 0 {
                    self.color = apply_warm_tint(draw_base_color());
                    self.state = EyeState::set_opening();
                } else {
                    self.state = EyeState::Closed(rem2);
                }
                new_color = Color::black();
            },
            EyeState::Opened(on, gap) => {
                let on2: u64 = on.saturating_sub(elapsed_ms);
                let gap2: u64 = gap.saturating_sub(elapsed_ms);
                if on2 == 0 {
                    self.state = EyeState::set_closing();
                } else if gap2 == 0 {
                    let blink: u64 = random_in_range(BLINK_MS_MIN, BLINK_MS_MAX);
                    self.state = EyeState::Blinking(on2, blink);
                } else {
                    self.state = EyeState::Opened(on2, gap2);
                }
                new_color = self.color;
            },
            EyeState::Opening(rem) => {
                let rem2: u64 = rem.saturating_sub(elapsed_ms);
                if rem2 == 0 {
                    self.state = EyeState::set_opened();
                    new_color = self.color;
                } else {
                    self.state = EyeState::Opening(rem2);
                    new_color = self.color.mul((FADE_TIME_MS - rem2) as u32, FADE_TIME_MS as u32);
                }
            },
            EyeState::Closing(rem) => {
                let rem2: u64 = rem.saturating_sub(elapsed_ms);
                if rem2 == 0 {
                    self.state = EyeState::set_closed();
                    new_color = Color::black();
                } else {
                    self.state = EyeState::Closing(rem2);
                    new_color = self.color.mul(rem2 as u32, FADE_TIME_MS as u32);
                }
            },
            EyeState::Blinking(on, bl) => {
                let bl2: u64 = bl.saturating_sub(elapsed_ms);
                if bl2 == 0 {
                    self.state = EyeState::set_reopened(on);
                    new_color = self.color;
                } else {
                    self.state = EyeState::Blinking(on, bl2);
                    new_color = Color::black();
                }
            },
        }
        segment.set_led(self.indices.0, new_color);
        segment.set_led(self.indices.1, new_color);
    }
}

/// Two pairs keep at least a two-LED gap between them: with first indices x
/// and y, the nearer pair's second eye ends three short of the other's first.
pub open spec fn pairs_separated(a: EyePair, b: EyePair) -> bool {
    ||| a.indices.0 + 4 <= b.indices.0
    ||| b.indices.0 + 4 <= a.indices.0
}

/// A free range cannot yield a pair closer than the two-LED gap to `p`.
pub open spec fn range_clear_of(r: (usize, usize), p: EyePair) -> bool {
    ||| r.1 + 3 <= p.indices.0
    ||| p.indices.0 + 4 <= r.0
}

/// Two free ranges cannot yield pairs closer than the two-LED gap.
pub open spec fn ranges_apart(r: (usize, usize), s: (usize, usize)) -> bool {
    ||| r.1 + 3 <= s.0
    ||| s.1 + 3 <= r.0
}

/// A pair starting at index `x` could not sit beside `p`: it would break
/// the two-LED gap.
pub open spec fn blocked_by(p: EyePair, x: int) -> bool {
    p.indices.0 - 3 <= x <= p.indices.0 + 3
}

/// No pair whose first eye is at `x` can legally be added any more.
pub open spec fn candidate_blocked(pairs: Seq<EyePair>, x: int) -> bool {
    exists|k: int| 0 <= k < pairs.len() && blocked_by(#[trigger] pairs[k], x)
}

/// Some free range still covers the adjacent indices `x` and `x + 1`.
spec fn candidate_free(pool: Seq<(usize, usize)>, x: int) -> bool {
    exists|s: int| 0 <= s < pool.len() && (#[trigger] pool[s]).0 <= x && x + 1 <= pool[s].1
}

/// How many indices an inclusive free range still covers.
pub open spec fn range_weight(r: (usize, usize)) -> int {
    if r.0 <= r.1 {
        r.1 - r.0 + 1
    } else {
        0
    }
}

/// Total indices covered by a pool of free ranges: the placement loop's
/// termination measure.
pub open spec fn pool_weight(p: Seq<(usize, usize)>) -> int
    decreases p.len(),
{
    if p.len() == 0 {
        0
    } else {
        range_weight(p[0]) + pool_weight(p.drop_first())
    }
}

proof fn lemma_pool_weight_nonneg(p: Seq<(usize, usize)>)
    ensures
        pool_weight(p) >= 0,
    decreases p.len(),
{
    if p.len() > 0 {
        lemma_pool_weight_nonneg(p.drop_first());
    }
}

proof fn lemma_pool_weight_push(p: Seq<(usize, usize)>, x: (usize, usize))
    ensures
        pool_weight(p.push(x)) == pool_weight(p) + range_weight(x),
    decreases p.len(),
{
    assert(p.push(x)[0] == if p.len() == 0 { x } else { p[0] });
    if p.len() == 0 {
        assert(p.push(x).drop_first() =~= Seq::<(usize, usize)>::empty());
        assert(pool_weight(Seq::<(usize, usize)>::empty()) == 0);
        assert(pool_weight(p.push(x)) == range_weight(p.push(x)[0]) + pool_weight(
            p.push(x).drop_first(),
        ));
    } else {
        assert(p.push(x).drop_first() =~= p.drop_first().push(x));
        lemma_pool_weight_push(p.drop_first(), x);
    }
}

proof fn lemma_pool_weight_remove(p: Seq<(usize, usize)>, r: int)
    requires
        0 <= r < p.len(),
    ensures
        pool_weight(p.remove(r)) == pool_weight(p) - range_weight(p[r]),
    decreases p.len(),
{
    if r == 0 {
        assert(p.remove(0) =~= p.drop_first());
    } else {
        assert(p.remove(r).drop_first() =~= p.drop_first().remove(r - 1));
        lemma_pool_weight_remove(p.drop_first(), r - 1);
    }
}

/// Does any pair of `pairs` paint index `j`?
pub open spec fn paints(pairs: Seq<EyePair>, j: int) -> bool {
    exists|k: int|
        0 <= k < pairs.len() && (j == (#[trigger] pairs[k]).indices.0 || j == pairs[k].indices.1)
}

/// N independently timed pairs of glowing eyes on an otherwise dark strip.
/// Construction places the pairs on disjoint spots with at least two dark
/// LEDs between any two pairs; each tick advances every pair's state machine
/// by the elapsed wall-clock time.
pub struct SpookyEyes {
    pub eye_pairs: Vec<EyePair>,
}

impl SpookyEyes {
    /// Place up to `eye_count` eye pairs on a strip of `segment_length`
    /// LEDs. A pool of free index ranges starts as the whole strip; each
    /// round removes a random range, samples a random adjacent index pair in
    /// it, and returns the two trimmed leftovers to the pool. Placement
    /// stops short of the requested count only when no free range remains,
    /// and then no further pair could have kept the two-LED gap; a strip
    /// shorter than two LEDs gets no pairs at all and the effect stays dark.
    #[verifier::rlimit(60)]
    pub fn init(eye_count: usize, segment_length: usize) -> (e: Self)
        ensures
            e.inv(),
            e.eye_pairs@.len() <= eye_count,
            eye_count >= 1 && segment_length >= 2 ==> e.eye_pairs@.len() >= 1,
            e.eye_pairs@.len() < eye_count ==> forall|x: int|
                0 <= x && x + 1 < segment_length ==> candidate_blocked(e.eye_pairs@, x),
            forall|k: int|
                0 <= k < e.eye_pairs@.len() ==> {
                    let p = #[trigger] e.eye_pairs@[k];
                    &&& p.indices.1 == p.indices.0 + 1
                    &&& p.indices.1 < segment_length
                    &&& is_eye_color(p.color)
                    &&& p.state matches EyeState::Opened(on, gap) && on == INIT_ON_TIME_MS
                        && BLINK_GAP_MS_MIN <= gap <= BLINK_GAP_MS_MAX
                },
            forall|k: int, l: int|
                0 <= k < l < e.eye_pairs@.len() ==> pairs_separated(
                    e.eye_pairs@[k],
                    e.eye_pairs@[l],
                ),
    {
        let mut eye_pairs: Vec<EyePair> = Vec::new();
        let mut pool: Vec<(usize, usize)> = Vec::new();
        if segment_length >= 2 {
            pool.push((0, segment_length - 1));
            proof {
                assert forall|x: int|
                    0 <= x && x + 1 < segment_length implies candidate_free(pool@, x) by {
                    assert(pool@[0].0 <= x && x + 1 <= pool@[0].1);
                }
            }
        }
        while eye_pairs.len() < eye_count && pool.len() > 0
            invariant
                eye_pairs@.len() <= eye_count,
                eye_count >= 1 && segment_length >= 2 ==> eye_pairs@.len() >= 1 || (pool@.len()
                    == 1 && pool@[0].0 == 0 && pool@[0].1 == segment_length - 1),
                forall|r: int|
                    0 <= r < pool@.len() ==> (#[trigger] pool@[r]).0 <= pool@[r].1
                        < segment_length,
                forall|k: int|
                    0 <= k < eye_pairs@.len() ==> {
                        let p = #[trigger] eye_pairs@[k];
                        &&& p.indices.1 == p.indices.0 + 1
                        &&& p.indices.1 < segment_length
                        &&& is_eye_color(p.color)
                        &&& p.state matches EyeState::Opened(on, gap) && on == INIT_ON_TIME_MS
                            && BLINK_GAP_MS_MIN <= gap <= BLINK_GAP_MS_MAX
                    },
                forall|k: int, l: int|
                    0 <= k < l < eye_pairs@.len() ==> pairs_separated(
                        #[trigger] eye_pairs@[k],
                        #[trigger] eye_pairs@[l],
                    ),
                forall|r: int, k: int|
                    0 <= r < pool@.len() && 0 <= k < eye_pairs@.len() ==> range_clear_of(
                        #[trigger] pool@[r],
                        #[trigger] eye_pairs@[k],
                    ),
                forall|r: int, s: int|
                    0 <= r < pool@.len() && 0 <= s < pool@.len() && r != s ==> ranges_apart(
                        #[trigger] pool@[r],
                        #[trigger] pool@[s],
                    ),
                // every still-legal candidate position is covered by a free
                // range; once the pool is empty, placement was maximal
                forall|x: int|
                    0 <= x && x + 1 < segment_length ==> candidate_blocked(eye_pairs@, x)
                        || candidate_free(pool@, x),
            decreases eye_count - eye_pairs@.len(), pool_weight(pool@),
        {
            proof {
                lemma_pool_weight_nonneg(pool@);
            }
            let ghost pool0 = pool@;
            let ghost pairs0 = eye_pairs@;
            let pick: u64 = random_in_range(0, (pool.len() - 1) as u64);
            let r: usize = pick as usize;
            let range: (usize, usize) = pool.remove(r);
            let lo: usize = range.0;
            let hi: usize = range.1;
            proof {
                lemma_pool_weight_remove(pool0, r as int);
                lemma_pool_weight_nonneg(pool@);
            }
            if lo + 1 <= hi {
                let x: u64 = random_in_range(lo as u64, (hi - 1) as u64);
                let x: usize = x as usize;
                eye_pairs.push(EyePair::new((x, x + 1)));
                let ghost pool1 = pool@;
                if x >= 3 && lo <= x - 3 {
                    proof {
                        lemma_pool_weight_push(pool@, (lo, (x - 3) as usize));
                    }
                    pool.push((lo, x - 3));
                }
                if hi >= 4 && x <= hi - 4 {
                    proof {
                        lemma_pool_weight_push(pool@, (((x + 4) as usize), hi));
                    }
                    pool.push((x + 4, hi));
                }
                proof {
                    let nl = pool1.len() as int;
                    assert forall|c: int|
                        0 <= c && c + 1 < segment_length implies candidate_blocked(eye_pairs@, c)
                        || candidate_free(pool@, c) by {
                        if candidate_blocked(pairs0, c) {
                            let k = choose|k: int|
                                0 <= k < pairs0.len() && blocked_by(#[trigger] pairs0[k], c);
                            assert(eye_pairs@[k] == pairs0[k]);
                            assert(candidate_blocked(eye_pairs@, c));
                        } else if candidate_free(pool0, c) {
                            let s = choose|s: int|
                                0 <= s < pool0.len() && (#[trigger] pool0[s]).0 <= c && c + 1
                                    <= pool0[s].1;
                            if s == r {
                                if c + 4 <= x {
                                    // the candidate fits the trimmed left
                                    // leftover, which was pushed
                                    assert(pool@[nl] == ((lo, (x - 3) as usize)));
                                    assert(candidate_free(pool@, c));
                                } else if c >= x + 4 {
                                    // it fits the trimmed right leftover
                                    if x >= 3 && lo <= x - 3 {
                                        assert(pool@[nl + 1] == (((x + 4) as usize, hi)));
                                    } else {
                                        assert(pool@[nl] == (((x + 4) as usize, hi)));
                                    }
                                    assert(candidate_free(pool@, c));
                                } else {
                                    // within three indices of the new pair
                                    assert(blocked_by(eye_pairs@[pairs0.len() as int], c));
                                    assert(candidate_blocked(eye_pairs@, c));
                                }
                            } else {
                                let s2: int = if s < r { s } else { s - 1 };
                                assert(pool1[s2] == pool0[s]);
                                assert(pool@[s2] == pool1[s2]);
                                assert(candidate_free(pool@, c));
                            }
                        }
                    }
                }
            } else {
                proof {
                    assert forall|c: int|
                        0 <= c && c + 1 < segment_length implies candidate_blocked(eye_pairs@, c)
                        || candidate_free(pool@, c) by {
                        if !candidate_blocked(pairs0, c) && candidate_free(pool0, c) {
                            let s = choose|s: int|
                                0 <= s < pool0.len() && (#[trigger] pool0[s]).0 <= c && c + 1
                                    <= pool0[s].1;
                            // the dropped range spans a single index and
                            // cannot cover two adjacent ones
                            assert(s != r);
                            let s2: int = if s < r { s } else { s - 1 };
                            assert(pool@[s2] == pool0[s]);
                            assert(candidate_free(pool@, c));
                        }
                    }
                }
            }
        }
        proof {
            if eye_pairs@.len() < eye_count {
                assert forall|x: int|
                    0 <= x && x + 1 < segment_length implies candidate_blocked(
                    eye_pairs@,
                    x,
                ) by {
                    if candidate_free(pool@, x) {
                        let s = choose|s: int|
                            0 <= s < pool@.len() && (#[trigger] pool@[s]).0 <= x && x + 1
                                <= pool@[s].1;
                        assert(false);
                    }
                }
            }
        }
        SpookyEyes { eye_pairs }
    }
}

impl Effect for SpookyEyes {
    /// Pairs sit on adjacent index pairs, keep the two-LED gap to each
    /// other, and their fade countdowns are well formed.
    open spec fn inv(&self) -> bool {
        &&& forall|k: int|
            0 <= k < self.eye_pairs@.len() ==> {
                let p = #[trigger] self.eye_pairs@[k];
                &&& eye_state_wf(p.state)
                &&& p.indices.1 == p.indices.0 + 1
            }
        &&& forall|k: int, l: int|
            0 <= k < l < self.eye_pairs@.len() ==> pairs_separated(
                #[trigger] self.eye_pairs@[k],
                #[trigger] self.eye_pairs@[l],
            )
    }

    /// Every pair steps its state machine once by the elapsed time; every
    /// in-range index of a pair shows that pair's rendered color; every
    /// index no pair paints keeps its old color.
    open spec fn tick_ens(
        &self,
        post: &Self,
        pre_seg: Seq<Color>,
        post_seg: Seq<Color>,
        elapsed_ms: u64,
        r: Result<(), RenderError>,
    ) -> bool {
        &&& r is Ok
        &&& post_seg.len() == pre_seg.len()
        &&& post.eye_pairs@.len() == self.eye_pairs@.len()
        &&& forall|k: int|
            0 <= k < self.eye_pairs@.len() ==> eye_step(
                #[trigger] self.eye_pairs@[k],
                post.eye_pairs@[k],
                elapsed_ms,
            )
        &&& forall|k: int|
            0 <= k < self.eye_pairs@.len() ==> {
                let p = #[trigger] self.eye_pairs@[k];
                &&& p.indices.0 < pre_seg.len() ==> post_seg[p.indices.0 as int] == eye_rendered(
                    p,
                    elapsed_ms,
                )
                &&& p.indices.1 < pre_seg.len() ==> post_seg[p.indices.1 as int] == eye_rendered(
                    p,
                    elapsed_ms,
                )
            }
        &&& forall|j: int|
            0 <= j < pre_seg.len() && !paints(self.eye_pairs@, j) ==> post_seg[j] == pre_seg[j]
    }

    fn tick(&mut self, segment: &mut Segment, elapsed_ms: u64) -> (r: Result<(), RenderError>) {
        let n: usize = self.eye_pairs.len();
        let mut k: usize = 0;
        while k < n
            invariant
                k <= n,
                n == old(self).eye_pairs@.len(),
                self.eye_pairs@.len() == n,
                old(self).inv(),
                segment@.len() == old(segment)@.len(),
                forall|m: int|
                    0 <= m < k ==> eye_step(
                        #[trigger] old(self).eye_pairs@[m],
                        self.eye_pairs@[m],
                        elapsed_ms,
                    ),
                forall|m: int| k <= m < n ==> self.eye_pairs@[m] == old(self).eye_pairs@[m],
                forall|m: int|
                    0 <= m < k ==> {
                        let p = #[trigger] old(self).eye_pairs@[m];
                        &&& p.indices.0 < segment@.len() ==> segment@[p.indices.0 as int]
                            == eye_rendered(p, elapsed_ms)
                        &&& p.indices.1 < segment@.len() ==> segment@[p.indices.1 as int]
                            == eye_rendered(p, elapsed_ms)
                    },
                forall|j: int|
                    0 <= j < segment@.len() && !paints(old(self).eye_pairs@.take(k as int), j)
                        ==> segment@[j] == old(segment)@[j],
            decreases n - k,
        {
            let ghost pairs_before = self.eye_pairs@;
            let ghost seg_before = segment@;
            let pair = &mut self.eye_pairs[k];
            pair.tick(elapsed_ms, segment);
            proof {
                lemma_spooky_tick_step(
                    old(self).eye_pairs@,
                    pairs_before,
                    self.eye_pairs@,
                    old(segment)@,
                    seg_before,
                    segment@,
                    elapsed_ms,
                    k as int,
                );
            }
            k = k + 1;
        }
        proof {
            assert(old(self).eye_pairs@.take(n as int) =~= old(self).eye_pairs@);
            assert forall|m: int| 0 <= m < n implies {
                let q = #[trigger] self.eye_pairs@[m];
                &&& eye_state_wf(q.state)
                &&& q.indices.1 == q.indices.0 + 1
            } by {
                assert(eye_step(old(self).eye_pairs@[m], self.eye_pairs@[m], elapsed_ms));
                assert(eye_state_wf(old(self).eye_pairs@[m].state));
            }
            assert forall|m: int, l: int| 0 <= m < l < n implies pairs_separated(
                #[trigger] self.eye_pairs@[m],
                #[trigger] self.eye_pairs@[l],
            ) by {
                assert(eye_step(old(self).eye_pairs@[m], self.eye_pairs@[m], elapsed_ms));
                assert(eye_step(old(self).eye_pairs@[l], self.eye_pairs@[l], elapsed_ms));
                assert(pairs_separated(old(self).eye_pairs@[m], old(self).eye_pairs@[l]));
            }
        }
        Ok(())
    }
}

/// One loop step of the tick: pair `k` stepped and painted its two indices;
/// everything the earlier pairs painted, and everything no pair painted,
/// is untouched, because distinct pairs sit at least four indices apart.
proof fn lemma_spooky_tick_step(
    orig: Seq<EyePair>,
    pre_pairs: Seq<EyePair>,
    post_pairs: Seq<EyePair>,
    orig_seg: Seq<Color>,
    pre_seg: Seq<Color>,
    post_seg: Seq<Color>,
    elapsed_ms: u64,
    k: int,
)
    requires
        0 <= k < orig.len(),
        pre_pairs.len() == orig.len(),
        // the invariant facts at the top of the iteration
        forall|m: int|
            0 <= m < k ==> eye_step(#[trigger] orig[m], pre_pairs[m], elapsed_ms),
        forall|m: int| k <= m < orig.len() ==> pre_pairs[m] == orig[m],
        forall|m: int|
            0 <= m < orig.len() ==> {
                let p = #[trigger] orig[m];
                &&& eye_state_wf(p.state)
                &&& p.indices.1 == p.indices.0 + 1
            },
        forall|m: int, l: int|
            0 <= m < l < orig.len() ==> pairs_separated(#[trigger] orig[m], #[trigger] orig[l]),
        pre_seg.len() == orig_seg.len(),
        forall|m: int|
            0 <= m < k ==> {
                let p = #[trigger] orig[m];
                &&& p.indices.0 < pre_seg.len() ==> pre_seg[p.indices.0 as int] == eye_rendered(
                    p,
                    elapsed_ms,
                )
                &&& p.indices.1 < pre_seg.len() ==> pre_seg[p.indices.1 as int] == eye_rendered(
                    p,
                    elapsed_ms,
                )
            },
        forall|j: int|
            0 <= j < pre_seg.len() && !paints(orig.take(k), j) ==> pre_seg[j] == orig_seg[j],
        // what the k-th pair's tick did
        post_pairs == pre_pairs.update(k, post_pairs[k]),
        eye_step(pre_pairs[k], post_pairs[k], elapsed_ms),
        post_seg == written(
            written(pre_seg, pre_pairs[k].indices.0 as int, eye_rendered(pre_pairs[k], elapsed_ms)),
            pre_pairs[k].indices.1 as int,
            eye_rendered(pre_pairs[k], elapsed_ms),
        ),
    ensures
        post_pairs.len() == orig.len(),
        post_seg.len() == orig_seg.len(),
        forall|m: int|
            0 <= m < k + 1 ==> eye_step(#[trigger] orig[m], post_pairs[m], elapsed_ms),
        forall|m: int| k + 1 <= m < orig.len() ==> post_pairs[m] == orig[m],
        forall|m: int|
            0 <= m < k + 1 ==> {
                let p = #[trigger] orig[m];
                &&& p.indices.0 < post_seg.len() ==> post_seg[p.indices.0 as int] == eye_rendered(
                    p,
                    elapsed_ms,
                )
                &&& p.indices.1 < post_seg.len() ==> post_seg[p.indices.1 as int] == eye_rendered(
                    p,
                    elapsed_ms,
                )
            },
        forall|j: int|
            0 <= j < post_seg.len() && !paints(orig.take(k + 1), j) ==> post_seg[j] == orig_seg[j],
{
    let p = orig[k];
    let c = eye_rendered(p, elapsed_ms);
    assert(pre_pairs[k] == p);
    assert forall|m: int| 0 <= m < k + 1 implies eye_step(
        #[trigger] orig[m],
        post_pairs[m],
        elapsed_ms,
    ) by {
        if m < k {
            assert(post_pairs[m] == pre_pairs[m]);
        }
    }
    assert forall|m: int|
        0 <= m < k + 1 implies {
        let q = #[trigger] orig[m];
        &&& q.indices.0 < post_seg.len() ==> post_seg[q.indices.0 as int] == eye_rendered(
            q,
            elapsed_ms,
        )
        &&& q.indices.1 < post_seg.len() ==> post_seg[q.indices.1 as int] == eye_rendered(
            q,
            elapsed_ms,
        )
    } by {
        let q = orig[m];
        if m < k {
            // pair m's cells are at least three indices away from pair k's,
            // so the two writes of pair k cannot have touched them
            assert(pairs_separated(orig[m], orig[k]));
        }
    }
    assert forall|j: int|
        0 <= j < post_seg.len() && !paints(orig.take(k + 1), j) implies post_seg[j] == orig_seg[j]
    by {
        assert(orig.take(k + 1)[k] == orig[k]);
        assert(j != p.indices.0 && j != p.indices.1);
        assert(!paints(orig.take(k), j)) by {
            if paints(orig.take(k), j) {
                let m = choose|m: int|
                    0 <= m < k && (j == (#[trigger] orig.take(k)[m]).indices.0 || j == orig.take(
                        k,
                    )[m].indices.1);
                assert(orig.take(k + 1)[m] == orig[m]);
            }
        }
    }
}

} // verus!

