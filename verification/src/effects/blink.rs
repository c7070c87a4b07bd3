use vstd::prelude::*;
use super::{Effect, RenderError, random_in_range};
use crate::led_control::color::Color;
use crate::led_control::segment::Segment;

verus! {

/// Once per second, repaint the whole segment in one freshly drawn random
/// color. Between threshold crossings a tick is a no-op.
pub struct Blink {
    /// Milliseconds accumulated since this effect last repainted.
    pub since_change_ms: u64,
}

/// How long a color stays before the next repaint.
pub const BLINK_INTERVAL_MS: u64 = 1000;

impl Blink {
    /// A fresh effect whose timer starts at zero.
    pub fn init() -> (e: Self)
        ensures
            e.since_change_ms == 0,
            e.inv(),
    {
        Blink { since_change_ms: 0 }
    }
}

impl Effect for Blink {
    open spec fn inv(&self) -> bool {
        true
    }

    /// Crossing the one-second threshold resets the timer and paints every
    /// LED the same (randomly drawn) color; otherwise only the timer moves.
    open spec fn tick_ens(
        &self,
        post: &Self,
        pre_seg: Seq<Color>,
        post_seg: Seq<Color>,
        elapsed_ms: u64,
        r: Result<(), RenderError>,
    ) -> bool {
        &&& r is Ok
        &&& post_seg.len() == pre_seg.len()
        &&& if self.since_change_ms + elapsed_ms > BLINK_INTERVAL_MS {
            &&& post.since_change_ms == 0
            &&& forall|i: int, j: int|
                0 <= i < post_seg.len() && 0 <= j < post_seg.len() ==> post_seg[i] == post_seg[j]
        } else {
            &&& post.since_change_ms == self.since_change_ms + elapsed_ms
            &&& post_seg == pre_seg
        }
    }

    fn tick(&mut self, segment: &mut Segment, elapsed_ms: u64) -> (r: Result<(), RenderError>) {
        let acc: u64 = self.since_change_ms.saturating_add(elapsed_ms);
        if acc > BLINK_INTERVAL_MS {
            self.since_change_ms = 0;
            let color = Color::rgb(random_byte(), random_byte(), random_byte());
            segment.set_all(color);
        } else {
            self.since_change_ms = acc;
        }
        Ok(())
    }
}

/// One uniformly random channel intensity.
fn random_byte() -> (b: u8) {
    let r: u64 = random_in_range(0, 255);
    r as u8
}

} // verus!
