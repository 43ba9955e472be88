//! Small ordered maps.

pub mod levels;
pub mod names;
