//! How a component names its frame, and how handles are counted on the side
//! that asks for frames and grids.

use crate::frame::renderer::FrameHandle;
use crate::grid::builder::{GridBuilder, XName, YName};
use crate::grid::renderer::GridHandle;
use crate::handle::HandleLike;
use crate::layout::{floating_message, grid_member_message};
use crate::manager::{BBox, MarginBox};
use crate::render_actor::{FrameMessage, UpdateMessage};
use crate::units::VUnit;
use vstd::prelude::*;

verus! {

/// Where the frame of a component lives.
#[derive(Clone, Copy, Debug)]
pub enum ComponentType {
    /// The frame sits on no grid.
    Floating(FrameHandle),
    /// The frame sits on the grid named.
    GridMember(FrameHandle, GridHandle),
}

impl ComponentType {
    /// The index of the component's frame.
    pub open spec fn frame_spec(&self) -> nat {
        match self {
            ComponentType::Floating(f) => f@,
            ComponentType::GridMember(f, _) => f@,
        }
    }

    /// The frame of the component.
    pub fn frame(&self) -> (h: FrameHandle)
        ensures
            h@ == self.frame_spec(),
    {
        match self {
            Self::Floating(f) => f.clone(),
            Self::GridMember(f, _) => f.clone(),
        }
    }
}

/// What a user did to a component.
#[derive(Clone, Copy, Debug)]
pub enum Interaction {
    Click(bool),
    Hover,
}

/// Counts frames and grids as the layout does, so that whoever asks for one
/// knows its handle before the layout has made it.
///
/// The window is frame 0 and is there from the start.
#[derive(Clone, Copy, Debug)]
pub struct HandleCounter {
    frame_count: usize,
    grid_count: usize,
}

impl HandleCounter {
    /// How many frames were asked for, the window among them.
    pub closed spec fn frames(&self) -> nat {
        self.frame_count as nat
    }

    /// How many grids were asked for.
    pub closed spec fn grids(&self) -> nat {
        self.grid_count as nat
    }

    /// The count of a layout that holds only the window.
    pub fn new() -> (c: HandleCounter)
        ensures
            c.frames() == 1,
            c.grids() == 0,
    {
        HandleCounter { frame_count: 1, grid_count: 0 }
    }

    /// How many frames were asked for, the window among them.
    pub fn frame_count(&self) -> (n: usize)
        ensures
            n == self.frames(),
    {
        self.frame_count
    }

    /// How many grids were asked for.
    pub fn grid_count(&self) -> (n: usize)
        ensures
            n == self.grids(),
    {
        self.grid_count
    }

    /// The request for a frame on a grid, and the handle that the frame will
    /// have: opaque white, with a margin of ten pixels.
    pub fn send_frame(&mut self, grid: GridHandle, x: Option<XName>, y: Option<YName>) -> (r: (
        FrameHandle,
        UpdateMessage,
    ))
        requires
            old(self).frames() < usize::MAX,
        ensures
            r.0@ == old(self).frames(),
            r.1 == UpdateMessage::NewFrame(grid, x, y, grid_member_message(), r.0),
            final(self).frames() == old(self).frames() + 1,
            final(self).grids() == old(self).grids(),
    {
        let res = FrameHandle::new(self.frame_count);
        let ten = VUnit(640);
        let msg = UpdateMessage::NewFrame(
            grid,
            x,
            y,
            FrameMessage {
                size: None,
                margin: Some(MarginBox { top: ten, bottom: ten, left: ten, right: ten }),
                color: Some([255u8, 255u8, 255u8, 255u8]),
            },
            res,
        );
        self.frame_count = self.frame_count + 1;
        (res, msg)
    }

    /// The request for a frame that sits on no grid, and the handle that the
    /// frame will have: opaque white, without margin.
    pub fn send_floating(&mut self, size: BBox) -> (r: (FrameHandle, UpdateMessage))
        requires
            old(self).frames() < usize::MAX,
        ensures
            r.0@ == old(self).frames(),
            r.1 == UpdateMessage::NewFloatingFrame(floating_message(size)),
            final(self).frames() == old(self).frames() + 1,
            final(self).grids() == old(self).grids(),
    {
        let msg = UpdateMessage::NewFloatingFrame(
            FrameMessage { size: Some(size), margin: None, color: Some([255u8, 255u8, 255u8, 255u8]) },
        );
        let res = FrameHandle::new(self.frame_count);
        self.frame_count = self.frame_count + 1;
        (res, msg)
    }

    /// The request for the grid described, and the handle that the grid will
    /// have.
    pub fn send_grid(&mut self, grid: GridBuilder) -> (r: (GridHandle, UpdateMessage))
        requires
            old(self).grids() < usize::MAX,
        ensures
            r.0@ == old(self).grids(),
            r.1 matches UpdateMessage::NewGrid(h, b) && h == r.0 && b == grid,
            final(self).grids() == old(self).grids() + 1,
            final(self).frames() == old(self).frames(),
    {
        let res = GridHandle::new(self.grid_count);
        let msg = UpdateMessage::NewGrid(res, grid);
        self.grid_count = self.grid_count + 1;
        (res, msg)
    }
}

} // verus!
