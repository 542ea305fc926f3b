//! Grids: how an axis is divided into tracks, and how frames are placed on them.

pub mod builder;
pub mod data;
pub mod lookup;
pub mod place;
pub mod renderer;
pub mod solve;
pub mod track;

pub use builder::{GridBuilder, GridDir, Height, SpacerBuilder, Width, XName, YName};
pub use data::{GridData, GridExpandDir};
pub use renderer::{GridHandle, GridRenderer, GridT};
pub use solve::SpacerSolved;
pub use track::{GridSpacer, SpacerUnit};
