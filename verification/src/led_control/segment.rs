use vstd::prelude::*;
use super::color::Color;
use super::led::Led;

verus! {

/// A fixed-length, index-addressable run of LEDs: the in-memory image of the
/// physical strip. The length is set once at construction and no operation
/// changes it. Writes through an index beyond the end are silently skipped,
/// so effects may compute candidate indices speculatively.
pub struct Segment {
    leds: Vec<Led>,
}

impl View for Segment {
    type V = Seq<Color>;

    closed spec fn view(&self) -> Seq<Color> {
        self.leds@.map_values(|l: Led| l@)
    }
}

impl Segment {
    /// `led_count` dark LEDs.
    pub fn new(led_count: usize) -> (s: Self)
        ensures
            s@.len() == led_count,
            forall|i: int| 0 <= i < led_count ==> s@[i] == (Color { r: 0, g: 0, b: 0 }),
    {
        let mut leds: Vec<Led> = Vec::new();
        let mut n: usize = 0;
        while n < led_count
            invariant
                n <= led_count,
                leds@.len() == n,
                forall|i: int|
                    0 <= i < n ==> leds@[i]@ == (Color { r: 0, g: 0, b: 0 }),
            decreases led_count - n,
        {
            leds.push(Led::new());
            n = n + 1;
        }
        Segment { leds }
    }

    /// How many LEDs the segment holds.
    pub fn len(&self) -> (n: usize)
        ensures
            n == self@.len(),
    {
        self.leds.len()
    }

    /// Every LED dark.
    pub fn turn_off(&mut self)
        ensures
            final(self)@.len() == old(self)@.len(),
            forall|i: int|
                0 <= i < final(self)@.len() ==> final(self)@[i] == (Color { r: 0, g: 0, b: 0 }),
    {
        self.set_all(Color::black());
    }

    /// Every LED the same color.
    pub fn set_all(&mut self, color: Color)
        ensures
            final(self)@.len() == old(self)@.len(),
            forall|i: int| 0 <= i < final(self)@.len() ==> final(self)@[i] == color,
    {
        let count: usize = self.leds.len();
        let mut n: usize = 0;
        while n < count
            invariant
                n <= count,
                self.leds@.len() == count,
                forall|i: int| 0 <= i < n ==> self.leds@[i]@ == color,
            decreases count - n,
        {
            let led = &mut self.leds[n];
            led.set(color);
            n = n + 1;
        }
    }

    /// The whole ordered collection, for bulk reads.
    pub fn leds(&self) -> (r: &Vec<Led>)
        ensures
            r@.len() == self@.len(),
            forall|i: int| 0 <= i < r@.len() ==> r@[i]@ == self@[i],
    {
        &self.leds
    }

    /// The color at `idx`.
    pub fn color_at(&self, idx: usize) -> (c: Color)
        requires
            idx < self@.len(),
        ensures
            c == self@[idx as int],
    {
        self.leds[idx].color()
    }

    /// Tolerant write: stores `color` at `idx` if the index is inside the
    /// segment, and is a no-op otherwise. Effects lean on this when their
    /// computed indices may land past the end of the strip.
    pub fn set_led(&mut self, idx: usize, color: Color)
        ensures
            final(self)@.len() == old(self)@.len(),
            idx < old(self)@.len() ==> final(self)@ == old(self)@.update(idx as int, color),
            idx >= old(self)@.len() ==> final(self)@ == old(self)@,
    {
        if idx < self.leds.len() {
            let led = &mut self.leds[idx];
            led.set(color);
            proof {
                assert(self@ =~= old(self)@.update(idx as int, color));
            }
        }
    }
}

} // verus!
