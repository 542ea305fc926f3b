//! The record kept for one frame.

use crate::manager::{BBox, MarginBox};
use vstd::prelude::*;

verus! {

/// The four numbers of a rectangle, in the order in which they are stored.
#[derive(Clone, Copy, Debug)]
pub enum Loc {
    X,
    Y,
    W,
    H,
}

/// The four sides of a frame.
#[derive(Clone, Copy, Debug)]
pub enum Border {
    TOP,
    BOTTOM,
    LEFT,
    RIGHT,
}

/// One frame: where it is, how much room it keeps free inside, and its colour.
#[derive(Clone, Copy, Debug)]
pub struct FrameData {
    /// The rectangle of the frame.
    pub data: BBox,
    pub margin: MarginBox,
    /// Red, green, blue and alpha.
    pub color: [u8; 4],
    /// The frame whose rectangle this one is drawn relative to.
    pub camera_index: u32,
}

/// Something that can settle the size of the frame that comes next.
pub trait FrameSizer {
    fn size_next(&self);
}

} // verus!
