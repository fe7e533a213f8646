//! Velocity-layer selection for a multi-layered one-shot sampler.
//!
//! The library keeps, for every MIDI pitch, a moving window over the
//! velocity layers of that pitch, so that repeated notes of the same
//! velocity walk through neighbouring layers instead of repeating one.

pub mod engine;

pub mod performer;
pub mod que;
pub mod byte_que;
pub mod note;
pub mod midi;
pub mod playback;
pub mod voices;
