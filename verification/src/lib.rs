//! Record/playback engine of a stereo "brake" effect: while the brake is on,
//! incoming audio is recorded into a fixed-capacity buffer and played back from
//! a fractional read cursor whose speed decays; while it is off, audio passes
//! through unchanged.
//!
//! Samples, cursors and speeds are single-precision values carried by their bit
//! patterns. The library decides everything that can be decided on the patterns
//! themselves (ordering, floor, clamping, cursor bookkeeping); sums and products
//! are supplied by the caller as the three functions of `Arithmetic`, and the
//! contracts say of each result which call it came from.

pub mod binary32;
pub mod buffer;
pub mod engine;
pub mod params;
