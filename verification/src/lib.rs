//! Animation and protocol-encoding core for a strip of individually
//! addressable LEDs: color arithmetic, a fixed-length pixel segment,
//! pluggable animation effects, and a bit-exact pulse encoder for a
//! single-wire addressable-LED protocol.

pub mod effects;
pub mod led_control;
