//! Pixel-level building blocks: colors, single LEDs, and the segment that
//! a strip's worth of LEDs lives in, plus the pulse encoder and the
//! render/encode controller.

pub mod color;
pub mod controller;
pub mod led;
pub mod encoder;
pub mod segment;

pub use color::Color;
pub use controller::LEDController;
pub use led::Led;
pub use segment::Segment;
