//! The requests that reach a layout, one at a time.

use crate::frame::renderer::FrameHandle;
use crate::grid::builder::{GridBuilder, XName, YName};
use crate::grid::renderer::GridHandle;
use crate::manager::{BBox, MarginBox};
use vstd::prelude::*;

verus! {

/// What is to be set on a frame: each part that is given replaces what the
/// frame has, each part that is left out stays.
#[derive(Clone, Copy, Default, Debug)]
pub struct FrameMessage {
    pub size: Option<BBox>,
    pub color: Option<[u8; 4]>,
    pub margin: Option<MarginBox>,
}

/// What is to be set on a grid. Nothing can be, so far.
#[derive(Clone, Copy, Default, Debug)]
pub struct GridMessage {}

/// One request to the layout.
#[derive(Debug)]
pub enum UpdateMessage {
    /// Change a frame.
    ModifyFrame(FrameHandle, FrameMessage),
    /// Make a frame on a grid, at the column and row named. The sender counts
    /// frames as the layout does, and says which handle the frame will have.
    NewFrame(GridHandle, Option<XName>, Option<YName>, FrameMessage, FrameHandle),
    /// Make a frame that sits on no grid.
    NewFloatingFrame(FrameMessage),
    /// Change a grid.
    ModifyGrid(GridHandle, GridMessage),
    /// Make a grid. The sender says which handle it will have.
    NewGrid(GridHandle, GridBuilder),
    /// Bring every frame up to date for drawing.
    Prepare,
    /// Draw.
    Draw,
    /// Stop.
    Exit,
}

} // verus!
