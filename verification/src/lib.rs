//! Decision logic and signal processing for a gently waking alarm clock.
//!
//! Everything here works on plain integers: audio samples, filter taps and
//! gains are fixed-point numbers in millionths, times are milliseconds.

pub mod alarm;
pub mod cutoff;
pub mod envelope;
pub mod filtered_source;
pub mod fixed;
pub mod hint;
pub mod lucid;
pub mod precalculated_source;
pub mod sleep_monitor;
pub mod state;
pub mod streaming;
