use vstd::prelude::*;
use rand::Rng;
use crate::led_control::color::Color;
use crate::led_control::segment::Segment;

pub mod blink;
pub mod spookyeyes;
pub mod rainbow;

pub use blink::Blink;
pub use rainbow::Rainbow;
pub use spookyeyes::SpookyEyes;

verus! {

/// A tick's failure: reserved for unrecoverable internal corruption, never
/// for ordinary out-of-range indices, which segment writes tolerate.
#[derive(Clone, Copy, Debug, PartialEq, Eq, Structural)]
pub enum RenderError {
    Corrupted,
}

/// A stateful animation strategy. Exactly one effect drives a segment at a
/// time; each tick it advances its own timers by the wall-clock time the
/// controller measured and rewrites some of the segment's colors in place.
pub trait Effect {
    /// Internal well-formedness: established by the constructor, preserved
    /// by every tick.
    spec fn inv(&self) -> bool;

    /// The exact promise one tick makes, relating the effect's state and the
    /// segment's colors before and after the call.
    spec fn tick_ens(
        &self,
        post: &Self,
        pre_seg: Seq<Color>,
        post_seg: Seq<Color>,
        elapsed_ms: u64,
        r: Result<(), RenderError>,
    ) -> bool;

    /// Advance the animation by `elapsed_ms` milliseconds and repaint.
    /// Whatever else an effect promises, it never changes the segment's
    /// length.
    fn tick(&mut self, segment: &mut Segment, elapsed_ms: u64) -> (r: Result<(), RenderError>)
        requires
            old(self).inv(),
        ensures
            final(self).inv(),
            final(segment)@.len() == old(segment)@.len(),
            old(self).tick_ens(final(self), old(segment)@, final(segment)@, elapsed_ms, r),
    ;
}

/// Relies on rand's `Rng::gen_range` over an inclusive integer range: it
/// panics only on an empty range, and the drawn value always lies within the
/// bounds. Nothing more is assumed of the draw.
#[verifier::external_body]
pub(crate) fn random_in_range(lo: u64, hi: u64) -> (r: u64)
    requires
        lo <= hi,
    ensures
        lo <= r <= hi,
{
    rand::thread_rng().gen_range(lo..=hi)
}

} // verus!
