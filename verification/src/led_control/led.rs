use vstd::prelude::*;
use super::color::Color;

verus! {

/// A single pixel: holds exactly one color, black by default.
#[derive(Clone, Copy, Debug)]
pub struct Led {
    color: Color,
}

impl View for Led {
    type V = Color;

    closed spec fn view(&self) -> Color {
        self.color
    }
}

impl Led {
    /// A fresh pixel, dark.
    pub fn new() -> (l: Self)
        ensures
            l@ == (Color { r: 0, g: 0, b: 0 }),
    {
        Led { color: Color::black() }
    }

    /// Back to black.
    pub fn turn_off(&mut self)
        ensures
            final(self)@ == (Color { r: 0, g: 0, b: 0 }),
    {
        self.color = Color::black();
    }

    /// Overwrite the held color.
    pub fn set(&mut self, color: Color)
        ensures
            final(self)@ == color,
    {
        self.color = color;
    }

    /// The held color.
    pub fn color(&self) -> (c: Color)
        ensures
            c == self@,
    {
        self.color
    }
}

impl Default for Led {
    /// The default pixel is dark.
    fn default() -> (l: Self)
        ensures
            l@ == (Color { r: 0, g: 0, b: 0 }),
    {
        Led::new()
    }
}

} // verus!
