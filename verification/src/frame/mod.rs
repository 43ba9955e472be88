//! Frames: where they come from and how their lightness is found.

pub mod capturer;
pub mod device;
pub mod format;
pub mod image;
pub mod modifiers;
pub mod object;
