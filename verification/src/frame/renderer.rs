//! The table of frames.

use crate::error::LayoutError;
use crate::frame::data::FrameData;
use crate::handle::{index_view, Handle, HandleLike};
use crate::manager::BBox;
use vstd::prelude::*;

verus! {

/// The rectangle through which a frame's children are seen.
#[derive(Clone, Copy, Debug, PartialEq, Eq, Structural)]
pub struct Camera {
    pub bbox: BBox,
}

/// The name of a frame in the table that issued it.
pub type FrameHandle = Handle<FrameData>;

/// The lower of a watermark and an index that was just touched.
pub open spec fn lowered(mark: Option<nat>, touched: nat) -> Option<nat> {
    match mark {
        None => Some(touched),
        Some(m) => if touched < m {
            Some(touched)
        } else {
            Some(m)
        },
    }
}

/// A growing table of frames, addressed by handle.
///
/// Frames are only ever added, so the handle that `add` returns names the same
/// frame for as long as the table lives. Beside the frames the table keeps, for
/// whoever mirrors it elsewhere, the lowest index touched since the mirror was
/// last brought up to date.
pub struct FrameRenderer {
    data: Vec<FrameData>,
    changed: Option<usize>,
    camera_data: Vec<Camera>,
}

impl View for FrameRenderer {
    type V = Seq<FrameData>;

    /// The frames, in the order in which they were added.
    closed spec fn view(&self) -> Seq<FrameData> {
        self.data@
    }
}

impl FrameRenderer {
    /// The lowest index touched since `prepare` last ran, if any was.
    pub closed spec fn dirty(&self) -> Option<nat> {
        match self.changed {
            None => None,
            Some(i) => Some(i as nat),
        }
    }

    /// One camera for each frame, in the same order.
    pub closed spec fn cameras(&self) -> Seq<Camera> {
        self.camera_data@
    }

    /// Every frame has its camera, which shows the frame's own rectangle, and
    /// the watermark names a frame.
    pub closed spec fn wf(&self) -> bool {
        &&& self.camera_data@.len() == self.data@.len()
        &&& forall|i: int|
            0 <= i < self.data@.len() ==> (#[trigger] self.camera_data@[i]).bbox
                == self.data@[i].data
        &&& self.changed matches Some(c) ==> c < self.data@.len()
    }

    /// In a well-formed table the cameras are the frames' rectangles.
    pub proof fn lemma_cameras(&self)
        requires
            self.wf(),
        ensures
            self.cameras().len() == self@.len(),
            forall|i: int|
                0 <= i < self@.len() ==> (#[trigger] self.cameras()[i]).bbox == self@[i].data,
            self.dirty() matches Some(c) ==> c < self@.len(),
    {
    }

    /// The empty table.
    pub fn new() -> (r: FrameRenderer)
        ensures
            r.wf(),
            r@ == Seq::<FrameData>::empty(),
            r.dirty().is_none(),
    {
        FrameRenderer { data: Vec::new(), changed: None, camera_data: Vec::new() }
    }

    /// How many frames the table holds.
    pub fn len(&self) -> (n: usize)
        ensures
            n == self@.len(),
    {
        self.data.len()
    }

    /// Whether the handle names a frame of this table.
    pub fn contains(&self, handle: FrameHandle) -> (b: bool)
        ensures
            b == (handle@ < self@.len()),
    {
        handle.index() < self.data.len()
    }

    /// The frames, for whoever draws them.
    pub fn frames(&self) -> (r: &Vec<FrameData>)
        ensures
            r@ == self@,
    {
        &self.data
    }

    /// The cameras, for whoever draws through them.
    pub fn camera_data(&self) -> (r: &Vec<Camera>)
        ensures
            r@ == self.cameras(),
    {
        &self.camera_data
    }

    /// Hands out the watermark and clears it: what lies at or above the index
    /// returned has changed since the last call.
    pub fn prepare(&mut self) -> (mark: Option<usize>)
        requires
            old(self).wf(),
        ensures
            final(self).wf(),
            final(self)@ == old(self)@,
            final(self).cameras() == old(self).cameras(),
            final(self).dirty().is_none(),
            index_view(mark) == old(self).dirty(),
    {
        let mark = self.changed;
        self.changed = None;
        mark
    }

    fn touch(&mut self, index: usize)
        requires
            old(self).wf(),
            index < old(self)@.len(),
        ensures
            final(self).wf(),
            final(self)@ == old(self)@,
            final(self).cameras() == old(self).cameras(),
            final(self).dirty() == lowered(old(self).dirty(), index as nat),
    {
        self.changed = match self.changed {
            None => Some(index),
            Some(u) => if index < u {
                Some(index)
            } else {
                Some(u)
            },
        };
    }

    /// Appends a frame and returns its handle. The new frame counts as touched.
    pub fn add(&mut self, frame: FrameData) -> (handle: FrameHandle)
        requires
            old(self).wf(),
        ensures
            final(self).wf(),
            final(self)@ == old(self)@.push(frame),
            handle@ == old(self)@.len(),
            final(self).dirty() == lowered(old(self).dirty(), old(self)@.len()),
    {
        self.camera_data.push(Camera { bbox: frame.data });
        self.data.push(frame);
        let index = self.data.len() - 1;
        self.touch(index);
        FrameHandle::new(index)
    }

    /// Gives the frame a new rectangle, whatever its numbers are.
    pub fn update(&mut self, handle: FrameHandle, bounds: &BBox)
        requires
            old(self).wf(),
            handle@ < old(self)@.len(),
        ensures
            final(self).wf(),
            final(self)@ == old(self)@.update(
                handle@ as int,
                (FrameData { data: *bounds, ..old(self)@[handle@ as int] }),
            ),
            final(self).dirty() == lowered(old(self).dirty(), handle@),
    {
        let index = handle.index();
        let mut frame = self.data[index];
        frame.data = *bounds;
        self.data.set(index, frame);
        self.camera_data.set(index, Camera { bbox: *bounds });
        self.touch(index);
    }

    /// Gives the frame a new colour.
    pub fn update_color(&mut self, handle: FrameHandle, color: [u8; 4])
        requires
            old(self).wf(),
            handle@ < old(self)@.len(),
        ensures
            final(self).wf(),
            final(self)@ == old(self)@.update(
                handle@ as int,
                (FrameData { color: color, ..old(self)@[handle@ as int] }),
            ),
            final(self).dirty() == lowered(old(self).dirty(), handle@),
    {
        let index = handle.index();
        let mut frame = self.data[index];
        frame.color = color;
        self.data.set(index, frame);
        self.touch(index);
    }

    /// The frame that the handle names, or `InvalidHandle` where this table
    /// never issued it.
    pub fn get(&self, handle: FrameHandle) -> (r: Result<FrameData, LayoutError>)
        ensures
            handle@ < self@.len() ==> r == Ok::<FrameData, LayoutError>(self@[handle@ as int]),
            handle@ >= self@.len() ==> r == Err::<FrameData, LayoutError>(
                LayoutError::InvalidHandle,
            ),
    {
        let index = handle.index();
        if index < self.data.len() {
            Ok(self.data[index])
        } else {
            Err(LayoutError::InvalidHandle)
        }
    }
}

} // verus!
