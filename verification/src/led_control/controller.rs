use vstd::prelude::*;
use std::time::Instant;
use super::color::Color;
use super::encoder::{encode_frame, frame_encodes, PulsePair, PulseTable};
use super::segment::Segment;
use crate::effects::{Effect, RenderError};

verus! {

/// std's monotonic clock reading, opaque to verification.
#[verifier::external_type_specification]
#[verifier::external_body]
pub struct ExInstant(Instant);

/// Relies on std::time::Instant::now: a fresh monotonic clock reading.
#[verifier::external_body]
fn monotonic_now() -> Instant {
    Instant::now()
}

/// Relies on std::time::Instant::elapsed: the wall-clock time since the
/// reading was taken, in whole milliseconds. The result depends on the
/// clock, so nothing is promised of it.
#[verifier::external_body]
fn elapsed_millis(since: &Instant) -> u64 {
    since.elapsed().as_millis() as u64
}

/// One color at half intensity: every channel divided by two.
pub open spec fn halved(c: Color) -> Color {
    Color { r: (c.r / 2) as u8, g: (c.g / 2) as u8, b: (c.b / 2) as u8 }
}

/// `post` is `pre` with the global brightness cap applied.
pub open spec fn dimmed(pre: Seq<Color>, post: Seq<Color>) -> bool {
    &&& post.len() == pre.len()
    &&& forall|i: int| 0 <= i < pre.len() ==> post[i] == halved(#[trigger] pre[i])
}

/// The fixed global brightness cap: every channel of every LED halved, an
/// independent safety and power layer on top of whatever the effect painted.
pub fn apply_brightness_cap(segment: &mut Segment)
    ensures
        final(segment)@.len() == old(segment)@.len(),
        dimmed(old(segment)@, final(segment)@),
{
    let n: usize = segment.len();
    let mut i: usize = 0;
    while i < n
        invariant
            i <= n,
            segment@.len() == n == old(segment)@.len(),
            forall|j: int| 0 <= j < i ==> segment@[j] == halved(#[trigger] old(segment)@[j]),
            forall|j: int| i <= j < n ==> segment@[j] == old(segment)@[j],
        decreases n - i,
    {
        let c = segment.color_at(i);
        segment.set_led(i, Color::rgb(c.r / 2, c.g / 2, c.b / 2));
        i = i + 1;
    }
}

/// Owns the segment, the active effect and the memoized pulse table, and
/// runs the render/encode cycle: the effect paints, the brightness cap
/// halves every channel, and the encoder serializes the segment into the
/// pulse frame that an external transmission service emits.
pub struct LEDController<E: Effect> {
    segment: Segment,
    effect: E,
    table: PulseTable,
    last_update: Instant,
}

impl<E: Effect> LEDController<E> {
    /// The segment's current colors.
    pub closed spec fn spec_segment(&self) -> Seq<Color> {
        self.segment@
    }

    /// The held effect.
    pub closed spec fn spec_effect(&self) -> E {
        self.effect
    }

    /// The memoized pulse table.
    pub closed spec fn spec_table(&self) -> PulseTable {
        self.table
    }

    pub open spec fn wf(&self) -> bool {
        self.spec_effect().inv()
    }

    /// A controller over a fresh, dark segment of `led_count` LEDs.
    pub fn new(led_count: usize, effect: E, table: PulseTable) -> (c: Self)
        requires
            effect.inv(),
        ensures
            c.wf(),
            c.spec_segment().len() == led_count,
            forall|i: int|
                0 <= i < led_count ==> c.spec_segment()[i] == (Color { r: 0, g: 0, b: 0 }),
            c.spec_effect() == effect,
            c.spec_table() == table,
    {
        LEDController {
            segment: Segment::new(led_count),
            effect,
            table,
            last_update: monotonic_now(),
        }
    }

    /// A read-only view of the owned segment.
    pub fn segment(&self) -> (s: &Segment)
        ensures
            s@ == self.spec_segment(),
    {
        &self.segment
    }

    /// One render/encode cycle against a caller-supplied elapsed time. The
    /// returned frame is the bit-exact serialization of the segment as left
    /// by this cycle; an effect failure does not stop the cycle and is
    /// reported beside the frame.
    pub fn tick_elapsed(&mut self, elapsed_ms: u64) -> (out: (Vec<PulsePair>, Option<
        RenderError,
    >))
        requires
            old(self).wf(),
        ensures
            final(self).wf(),
            final(self).spec_table() == old(self).spec_table(),
            final(self).spec_segment().len() == old(self).spec_segment().len(),
            frame_encodes(final(self).spec_segment(), old(self).spec_table(), out.0@),
            exists|mid: Seq<Color>, r: Result<(), RenderError>|
                {
                    &&& #[trigger] old(self).spec_effect().tick_ens(
                        &final(self).spec_effect(),
                        old(self).spec_segment(),
                        mid,
                        elapsed_ms,
                        r,
                    )
                    &&& dimmed(mid, final(self).spec_segment())
                    &&& (r is Ok ==> out.1 is None)
                    &&& (r matches Err(e) ==> out.1 == Some(e))
                },
    {
        let res = self.effect.tick(&mut self.segment, elapsed_ms);
        let ghost mid = self.segment@;
        apply_brightness_cap(&mut self.segment);
        let frame = encode_frame(&self.segment, &self.table);
        let err = match res {
            Ok(_) => None,
            Err(e) => Some(e),
        };
        proof {
            assert(old(self).spec_effect().tick_ens(
                &self.effect,
                old(self).spec_segment(),
                mid,
                elapsed_ms,
                res,
            ));
        }
        (frame, err)
    }

    /// One full cycle against the controller's own monotonic clock: the
    /// wall-clock time since the previous cycle is measured once here and
    /// shared with the effect, so timers stay correct under scheduling
    /// jitter or missed cycles.
    pub fn tick(&mut self) -> (out: (Vec<PulsePair>, Option<RenderError>))
        requires
            old(self).wf(),
        ensures
            final(self).wf(),
            final(self).spec_table() == old(self).spec_table(),
            final(self).spec_segment().len() == old(self).spec_segment().len(),
            frame_encodes(final(self).spec_segment(), old(self).spec_table(), out.0@),
            exists|elapsed_ms: u64, mid: Seq<Color>, r: Result<(), RenderError>|
                {
                    &&& #[trigger] old(self).spec_effect().tick_ens(
                        &final(self).spec_effect(),
                        old(self).spec_segment(),
                        mid,
                        elapsed_ms,
                        r,
                    )
                    &&& dimmed(mid, final(self).spec_segment())
                    &&& (r is Ok ==> out.1 is None)
                    &&& (r matches Err(e) ==> out.1 == Some(e))
                },
    {
        let elapsed: u64 = elapsed_millis(&self.last_update);
        self.last_update = monotonic_now();
        self.tick_elapsed(elapsed)
    }
}

} // verus!
