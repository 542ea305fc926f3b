//! Frames: the records, and the table that holds them.

pub mod data;
pub mod renderer;

pub use data::FrameData;
pub use renderer::{FrameHandle, FrameRenderer};
