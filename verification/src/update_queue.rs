//! What components and the window system ask of the layout, before it is
//! turned into requests.

use crate::component::ComponentType;
use crate::frame::renderer::FrameHandle;
use crate::grid::builder::{XName, YName};
use crate::handle::HandleLike;
use crate::manager::{BBox, Rect};
use crate::render_actor::{FrameMessage, UpdateMessage};
use crate::units::{saturate, UserUnits, VUnit};
use vstd::prelude::*;

verus! {

/// A rectangle, relative to the parent's or not.
#[derive(Clone, Copy, Debug)]
pub enum Bounds {
    Rel(BBox),
    Abs(BBox),
}

/// What the window system reports.
#[derive(Clone, Copy, Debug)]
pub enum SystemUpdates {
    /// The window now has this many pixels.
    Resized { width: u32, height: u32 },
}

/// What a component asks for.
#[derive(Clone, Copy, Debug)]
pub enum UpdateMsg {
    /// Change the component's frame.
    Frame(FrameMessage),
    /// Change the size of a column.
    GridX(XName, UserUnits),
    /// Change the size of a row.
    GridY(YName, UserUnits),
}

/// Something asked of the layout, and by whom.
#[derive(Clone, Copy, Debug)]
pub enum Update {
    User(UpdateMsg, ComponentType),
    System(SystemUpdates),
}

/// The rectangle of a window of the given size: at the origin, so many whole
/// pixels wide and high.
pub open spec fn window_box(width: u32, height: u32) -> BBox {
    BBox {
        x: VUnit(0),
        y: VUnit(0),
        w: VUnit(saturate(width * 64) as i32),
        h: VUnit(saturate(height * 64) as i32),
    }
}

/// The request that an update comes to, if it comes to any: a change to a
/// component's frame is a change to that frame, a new size of the window is a
/// new rectangle for frame 0, and the sizes of tracks cannot be changed.
pub open spec fn request_of(update: Update) -> Option<UpdateMessage> {
    match update {
        Update::User(UpdateMsg::Frame(f), dst) => Some(
            UpdateMessage::ModifyFrame(frame_handle(dst.frame_spec()), f),
        ),
        Update::User(_, _) => None,
        Update::System(SystemUpdates::Resized { width, height }) => Some(
            UpdateMessage::ModifyFrame(
                frame_handle(0),
                FrameMessage { size: Some(window_box(width, height)), color: None, margin: None },
            ),
        ),
    }
}

/// The handle of the frame with the given index.
pub open spec fn frame_handle(index: nat) -> FrameHandle {
    choose|h: FrameHandle| h@ == index
}

/// The request that an update comes to, if it comes to any.
pub fn send(update: Update) -> (r: Option<UpdateMessage>)
    ensures
        r == request_of(update),
{
    match update {
        Update::User(msg, dst) => match msg {
            UpdateMsg::Frame(f) => {
                let h = dst.frame();
                proof {
                    crate::handle::lemma_handle_by_index(h, frame_handle(dst.frame_spec()));
                }
                Some(UpdateMessage::ModifyFrame(h, f))
            },
            _ => None,
        },
        Update::System(msg) => match msg {
            SystemUpdates::Resized { width, height } => {
                let h = FrameHandle::new(0);
                proof {
                    crate::handle::lemma_handle_by_index(h, frame_handle(0));
                }
                let size: BBox = Rect { x: 0u32, y: 0u32, w: width, h: height }.into();
                Some(
                    UpdateMessage::ModifyFrame(
                        h,
                        FrameMessage { size: Some(size), color: None, margin: None },
                    ),
                )
            },
        },
    }
}

} // verus!
