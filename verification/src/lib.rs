//! The motion rules of a small orbiting scene: a cube that spins and bobs, a
//! camera that circles the origin, and a frame-rate label.
//!
//! Everything here is exact integer arithmetic. Times are microseconds, angular
//! rates are milliradians per second, angles are nanoradians and lengths are
//! thousandths of a world unit. Turning an angle into a position takes a sine
//! and a cosine, which is left to the caller.

pub mod camera;
pub mod cube;
pub mod fps;
pub mod frames;
