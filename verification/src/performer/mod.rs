//! The performer: one queue per velocity, and layers described by
//! conventionally named files.

pub mod mello;
pub mod note;
pub mod que;
