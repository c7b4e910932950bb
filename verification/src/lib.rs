//! A verified simulation core for a side-scrolling jump-and-dodge arcade round.
//!
//! All quantities are integers: positions in millionths of a pixel, velocities in
//! millionths of a pixel per second, and times in nanoseconds. A program around this
//! library reads the clock and the input streams, hands plain values in, and carries
//! out the drawing commands and the pacing sleep that come back.

pub mod device;
pub mod entity;
pub mod physics;
pub mod player;
pub mod render;
pub mod roots;
pub mod round;
pub mod scene;
pub mod timebase;
pub mod touch;
pub mod units;
