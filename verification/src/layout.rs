//! The one owner of all frames and grids, through which every change goes.

use crate::error::LayoutError;
use crate::frame::data::FrameData;
use crate::frame::renderer::{lowered, FrameHandle, FrameRenderer};
use crate::grid::builder::{GridBuilder, XName, YName};
use crate::grid::data::{GridExpandDir, GridView};
use crate::grid::renderer::{all_fit, all_marked, all_updated, host_of, GridHandle, GridRenderer};
use crate::handle::{index_view, FallableHandleLike, HandleLike};
use crate::manager::{BBox, MarginBox};
use crate::render_actor::{FrameMessage, UpdateMessage};
use crate::units::VUnit;
use vstd::prelude::*;

verus! {

/// The frames and the watermark that goes with them.
pub type Arena = (Seq<FrameData>, Option<nat>);

/// What is left to do, outside the layout, after a request was served.
#[derive(Clone, Copy, Debug, PartialEq, Eq, Structural)]
pub enum Action {
    /// Nothing.
    Nothing,
    /// Draw what the layout holds.
    Draw,
    /// Mirror the frames from the given index on, or none of them.
    Upload(Option<usize>),
    /// Give the drawing surface this many whole pixels.
    ResizeSurface { width: u32, height: u32 },
    /// Stop serving requests.
    Exit,
}

/// Every frame placed on the grid is newer than the frame that the grid
/// divides.
pub open spec fn nested(g: GridView) -> bool {
    forall|k: int| 0 <= k < g.placements.len() ==> (#[trigger] g.placements[k]).frame > g.parent
}

/// The grids name frames that exist, divide frames older than the ones placed
/// on them, and no two of them divide the same frame.
pub open spec fn grids_wf(grids: Seq<GridView>, n: nat) -> bool {
    &&& all_fit(grids, n)
    &&& forall|g: int| 0 <= g < grids.len() ==> nested(#[trigger] grids[g])
    &&& forall|g: int, h: int|
        0 <= g < h < grids.len() ==> (#[trigger] grids[g]).parent != (#[trigger] grids[h]).parent
}

/// The frames after the change of one frame's rectangle was carried on: the
/// grid that divides the frame, if there is one, divides its rectangle anew,
/// and the same is then done for each frame placed on that grid, in the order
/// in which they were placed, and so on down. `bound` is the number of frames.
pub open spec fn cascade(grids: Seq<GridView>, arena: Arena, frame: nat, bound: nat) -> Arena
    decreases bound - frame, 1nat, 0nat,
{
    match host_of(grids, frame) {
        None => arena,
        Some(g) => if g < grids.len() && grids[g as int].parent == frame {
            cascade_children(
                grids,
                (grids[g as int].updated(arena.0), grids[g as int].updated_mark(arena.0, arena.1)),
                g,
                grids[g as int].placements.len(),
                bound,
            )
        } else {
            arena
        },
    }
}

/// The frames after the change was carried on below each of the first `k`
/// frames placed on grid `g`.
pub open spec fn cascade_children(
    grids: Seq<GridView>,
    arena: Arena,
    g: nat,
    k: nat,
    bound: nat,
) -> Arena
    decreases bound - grids[g as int].parent, 0nat, k,
{
    if k == 0 {
        arena
    } else {
        let before = cascade_children(grids, arena, g, (k - 1) as nat, bound);
        let child = grids[g as int].placements[k - 1].frame;
        if grids[g as int].parent < child < bound {
            cascade(grids, before, child, bound)
        } else {
            before
        }
    }
}

/// A change is only carried down: whatever `cascade` does below a frame, the
/// frame itself and every frame older than it stay as they are.
pub proof fn lemma_cascade_downward(
    grids: Seq<GridView>,
    arena: Arena,
    frame: nat,
    bound: nat,
    j: int,
)
    requires
        grids_wf(grids, bound),
        arena.0.len() == bound,
        frame < bound,
        0 <= j <= frame,
    ensures
        cascade(grids, arena, frame, bound).0.len() == bound,
        cascade(grids, arena, frame, bound).0[j] == arena.0[j],
    decreases bound - frame, 1nat, 0nat,
{
    match host_of(grids, frame) {
        None => {},
        Some(g) => {
            if g < grids.len() && grids[g as int].parent == frame {
                let grid = grids[g as int];
                let n = grid.placements.len();
                let parent = arena.0[grid.parent as int].data;
                assert(grid.fits(bound));
                assert(nested(grid));
                grid.lemma_written(arena.0, parent, n);
                grid.lemma_not_placed(parent, j as nat, n);
                lemma_children_downward(
                    grids,
                    (grid.updated(arena.0), grid.updated_mark(arena.0, arena.1)),
                    g,
                    n,
                    bound,
                    j,
                );
            }
        },
    }
}

/// The same for the frames placed on one grid.
proof fn lemma_children_downward(
    grids: Seq<GridView>,
    arena: Arena,
    g: nat,
    k: nat,
    bound: nat,
    j: int,
)
    requires
        grids_wf(grids, bound),
        arena.0.len() == bound,
        g < grids.len(),
        k <= grids[g as int].placements.len(),
        0 <= j <= grids[g as int].parent,
    ensures
        cascade_children(grids, arena, g, k, bound).0.len() == bound,
        cascade_children(grids, arena, g, k, bound).0[j] == arena.0[j],
    decreases bound - grids[g as int].parent, 0nat, k,
{
    if k > 0 {
        let grid = grids[g as int];
        assert(grid.fits(bound));
        assert(nested(grid));
        lemma_children_downward(grids, arena, g, (k - 1) as nat, bound, j);
        let before = cascade_children(grids, arena, g, (k - 1) as nat, bound);
        let child = grid.placements[k - 1].frame;
        assert(grid.parent < child < bound);
        lemma_cascade_downward(grids, before, child, bound, j);
    }
}

/// The record of a frame made from a message: what the message leaves out is
/// an empty rectangle, no margin, and the colour of nothing.
pub open spec fn record_of(f: FrameMessage, camera: u32) -> FrameData {
    FrameData {
        data: match f.size {
            Some(b) => b,
            None => BBox { x: VUnit(0), y: VUnit(0), w: VUnit(0), h: VUnit(0) },
        },
        margin: match f.margin {
            Some(m) => m,
            None => MarginBox { top: VUnit(0), bottom: VUnit(0), left: VUnit(0), right: VUnit(0) },
        },
        color: match f.color {
            Some(c) => c,
            None => [0u8, 0u8, 0u8, 0u8],
        },
        camera_index: camera,
    }
}

/// The index of a frame as a camera index: itself, or the largest there is.
pub open spec fn camera_of(frame: nat) -> u32 {
    if frame <= u32::MAX {
        frame as u32
    } else {
        u32::MAX
    }
}

/// The whole pixels of a length, none for a length below nothing.
pub open spec fn surface_pixels(v: VUnit) -> u32 {
    if v@ < 0 {
        0
    } else {
        (v@ / 64) as u32
    }
}

/// The margin that a frame on a grid starts with: ten pixels on every side.
pub open spec fn grid_margin() -> MarginBox {
    MarginBox { top: VUnit(640), bottom: VUnit(640), left: VUnit(640), right: VUnit(640) }
}

/// What a frame that sits on no grid starts as: the rectangle given, opaque
/// white, no margin.
pub open spec fn floating_message(size: BBox) -> FrameMessage {
    FrameMessage { size: Some(size), margin: None, color: Some([255u8, 255u8, 255u8, 255u8]) }
}

/// What a frame on a grid starts as: no rectangle yet, opaque white, the
/// margin of `grid_margin`.
pub open spec fn grid_member_message() -> FrameMessage {
    FrameMessage { size: None, margin: Some(grid_margin()), color: Some([255u8, 255u8, 255u8, 255u8]) }
}

/// All frames and all grids of one window.
///
/// Frame 0 is the window itself. Frames and grids are only ever added, and a
/// frame is placed on a grid at the moment it is made, so every frame on a
/// grid is newer than the frame that the grid divides: carrying a change down
/// always ends.
pub struct Layout {
    frame_renderer: FrameRenderer,
    grid_renderer: GridRenderer,
    base_handle: FrameHandle,
}

impl Layout {
    /// The frames, in the order in which they were made.
    pub closed spec fn frames(&self) -> Seq<FrameData> {
        self.frame_renderer@
    }

    /// The lowest index touched since `prepare` last ran, if any was.
    pub closed spec fn dirty(&self) -> Option<nat> {
        self.frame_renderer.dirty()
    }

    /// The frames and the watermark.
    pub open spec fn arena(&self) -> Arena {
        (self.frames(), self.dirty())
    }

    /// The grids, in the order in which they were made.
    pub closed spec fn grids(&self) -> Seq<GridView> {
        self.grid_renderer@
    }

    /// The window is there, and the grids and frames belong together as
    /// `grids_wf` says.
    pub closed spec fn wf(&self) -> bool {
        &&& self.frame_renderer.wf()
        &&& self.frame_renderer@.len() >= 1
        &&& self.base_handle@ == 0
        &&& grids_wf(self.grid_renderer@, self.frame_renderer@.len())
    }

    /// What well-formedness says of the frames and grids.
    pub proof fn lemma_wf(&self)
        requires
            self.wf(),
        ensures
            self.frames().len() >= 1,
            grids_wf(self.grids(), self.frames().len()),
            self.dirty() matches Some(m) ==> m < self.frames().len(),
    {
        self.frame_renderer.lemma_cameras();
    }

    /// A layout whose only frame is the window, with the given rectangle.
    pub fn new(window: BBox) -> (l: Layout)
        ensures
            l.wf(),
            l.frames() == seq![record_of(floating_message(window), 0)],
            l.grids() == Seq::<GridView>::empty(),
            l.dirty() == Some(0nat),
    {
        let mut frame_renderer = FrameRenderer::new();
        let base_handle = frame_renderer.add(
            FrameData {
                data: window,
                margin: MarginBox::zeroed(),
                color: [255u8, 255u8, 255u8, 255u8],
                camera_index: 0,
            },
        );
        let grid_renderer = GridRenderer::new();
        let l = Layout { frame_renderer, grid_renderer, base_handle };
        assert(l.frames() =~= seq![record_of(floating_message(window), 0)]);
        l
    }

    /// The frame that is the window.
    pub fn window(&self) -> (h: FrameHandle)
        ensures
            h@ == 0,
    {
        FrameHandle::new(0)
    }

    /// The table of frames, to read.
    pub fn frame_renderer(&self) -> (r: &FrameRenderer)
        ensures
            r@ == self.frames(),
            r.dirty() == self.dirty(),
            self.wf() ==> r.wf(),
    {
        &self.frame_renderer
    }

    /// The table of grids, to read.
    pub fn grid_renderer(&self) -> (r: &GridRenderer)
        ensures
            r@ == self.grids(),
    {
        &self.grid_renderer
    }

    /// The rectangle of a frame, or `InvalidHandle` for a handle that names
    /// none.
    pub fn get_rectangle(&self, handle: FrameHandle) -> (r: Result<BBox, LayoutError>)
        ensures
            handle@ < self.frames().len() ==> r == Ok::<BBox, LayoutError>(
                self.frames()[handle@ as int].data,
            ),
            handle@ >= self.frames().len() ==> r == Err::<BBox, LayoutError>(
                LayoutError::InvalidHandle,
            ),
    {
        match self.frame_renderer.get(handle) {
            Ok(f) => Ok(f.data),
            Err(e) => Err(e),
        }
    }

    /// Starts the description of a grid that is to divide the given frame.
    pub fn create_grid(&self, parent: FrameHandle) -> (b: GridBuilder)
        ensures
            b.parent_spec() == parent@,
            b.axis(GridExpandDir::X) == Seq::<crate::grid::track::SpacerUnit>::empty(),
            b.axis(GridExpandDir::Y) == Seq::<crate::grid::track::SpacerUnit>::empty(),
    {
        GridBuilder::new(parent)
    }

    fn add_record(&mut self, frame: FrameData) -> (handle: FrameHandle)
        requires
            old(self).wf(),
        ensures
            final(self).wf(),
            final(self).frames() == old(self).frames().push(frame),
            final(self).grids() == old(self).grids(),
            final(self).dirty() == lowered(old(self).dirty(), old(self).frames().len()),
            handle@ == old(self).frames().len(),
    {
        let handle = self.frame_renderer.add(frame);
        assert(grids_wf(self.grid_renderer@, self.frame_renderer@.len())) by {
            assert forall|g: int| 0 <= g < self.grid_renderer@.len() implies (
            #[trigger] self.grid_renderer@[g]).fits(self.frame_renderer@.len()) by {
                assert(old(self).grid_renderer@[g].fits(old(self).frame_renderer@.len()));
            }
        }
        handle
    }

    /// Makes a frame that sits on no grid: opaque white, without margin, with
    /// the rectangle given. Never fails.
    pub fn add_floating_frame(&mut self, size: BBox) -> (handle: FrameHandle)
        requires
            old(self).wf(),
        ensures
            final(self).wf(),
            final(self).frames() == old(self).frames().push(record_of(floating_message(size), 0)),
            final(self).grids() == old(self).grids(),
            final(self).dirty() == lowered(old(self).dirty(), old(self).frames().len()),
            handle@ == old(self).frames().len(),
    {
        self.add_record(
            FrameData {
                data: size,
                margin: MarginBox::zeroed(),
                color: [255u8, 255u8, 255u8, 255u8],
                camera_index: 0,
            },
        )
    }

    /// Carries the change of a frame's rectangle down, as `cascade` says.
    fn carry(&mut self, handle: FrameHandle)
        requires
            old(self).wf(),
            handle@ < old(self).frames().len(),
        ensures
            final(self).wf(),
            final(self).grids() == old(self).grids(),
            final(self).arena() == cascade(
                old(self).grids(),
                old(self).arena(),
                handle@,
                old(self).frames().len(),
            ),
            final(self).frames().len() == old(self).frames().len(),
        decreases old(self).frames().len() - handle@,
    {
        let ghost grids = self.grids();
        let ghost bound = self.frames().len();
        match self.grid_renderer.host(handle) {
            None => {},
            Some(g) => {
                let parent_box = match self.frame_renderer.get(handle) {
                    Ok(f) => f.data,
                    Err(_) => BBox::zeroed(),
                };
                assert(grids[g@ as int].fits(bound));
                assert(nested(grids[g@ as int]));
                self.grid_renderer.update(g, &parent_box, &mut self.frame_renderer);
                let ghost solved = self.arena();
                let count = self.grid_renderer.get(g).placement_count();
                let mut k: usize = 0;
                while k < count
                    invariant
                        k <= count,
                        count == grids[g@ as int].placements.len(),
                        g@ < grids.len(),
                        grids[g@ as int].parent == handle@,
                        handle@ < bound,
                        self.wf(),
                        self.grids() == grids,
                        self.frames().len() == bound,
                        bound == old(self).frames().len(),
                        self.arena() == cascade_children(grids, solved, g@, k as nat, bound),
                    decreases count - k,
                {
                    let child = self.grid_renderer.get(g).placement(k).handle;
                    assert(grids[g@ as int].placements[k as int].frame == child@);
                    assert(handle@ < child@ < bound);
                    self.carry(child);
                    k = k + 1;
                }
            },
        }
    }

    /// Gives a frame a new rectangle and carries the change down: the grid
    /// that divides the frame divides the new rectangle, which changes the
    /// frames placed on it, whose grids divide anew in turn, until every
    /// frame below is up to date. `InvalidHandle`, and nothing done, for a
    /// handle that names no frame.
    pub fn resize_frame(&mut self, handle: FrameHandle, size: BBox) -> (r: Result<(), LayoutError>)
        requires
            old(self).wf(),
        ensures
            final(self).wf(),
            final(self).grids() == old(self).grids(),
            final(self).frames().len() == old(self).frames().len(),
            handle@ >= old(self).frames().len() ==> r == Err::<(), LayoutError>(
                LayoutError::InvalidHandle,
            ) && final(self).arena() == old(self).arena(),
            handle@ < old(self).frames().len() ==> r.is_ok() && final(self).arena() == resized(
                old(self).grids(),
                old(self).arena(),
                handle@,
                size,
            ),
            handle@ < old(self).frames().len() ==> final(self).frames()[handle@ as int].data
                == size,
            forall|j: int|
                0 <= j < handle@ && j < old(self).frames().len() ==> final(self).frames()[j] == old(
                    self,
                ).frames()[j],
    {
        if !self.frame_renderer.contains(handle) {
            return Err(LayoutError::InvalidHandle);
        }
        self.frame_renderer.update(handle, &size);
        let ghost sized = self.arena();
        self.carry(handle);
        proof {
            assert(self.frames() == self.arena().0);
            assert forall|j: int| 0 <= j <= handle@ implies #[trigger] self.frames()[j]
                == sized.0[j] by {
                lemma_cascade_downward(self.grids(), sized, handle@, sized.0.len(), j);
            }
        }
        Ok(())
    }

    /// Gives a frame a new colour. `InvalidHandle`, and nothing done, for a
    /// handle that names no frame.
    pub fn recolor_frame(&mut self, handle: FrameHandle, color: [u8; 4]) -> (r: Result<
        (),
        LayoutError,
    >)
        requires
            old(self).wf(),
        ensures
            final(self).wf(),
            final(self).grids() == old(self).grids(),
            handle@ >= old(self).frames().len() ==> r == Err::<(), LayoutError>(
                LayoutError::InvalidHandle,
            ) && final(self).arena() == old(self).arena(),
            handle@ < old(self).frames().len() ==> r.is_ok() && final(self).arena() == recolored(
                old(self).arena(),
                handle@,
                color,
            ),
    {
        if !self.frame_renderer.contains(handle) {
            return Err(LayoutError::InvalidHandle);
        }
        self.frame_renderer.update_color(handle, color);
        Ok(())
    }

    /// Adds the grid that was described. A grid that would grow along both
    /// axes is no grid: `MultipleExpandingAxes`. A grid divides a frame that
    /// exists and that no other grid divides: `InvalidHandle` otherwise.
    /// Nothing is changed where an error is returned.
    pub fn add_grid(&mut self, grid: GridBuilder) -> (r: Result<GridHandle, LayoutError>)
        requires
            old(self).wf(),
        ensures
            final(self).wf(),
            final(self).arena() == old(self).arena(),
            r.is_err() ==> final(self).grids() == old(self).grids(),
            grid.expands_twice() ==> r == Err::<GridHandle, LayoutError>(
                LayoutError::MultipleExpandingAxes,
            ),
            !grid.expands_twice() && !can_host(
                old(self).grids(),
                old(self).frames().len(),
                grid.parent_spec(),
            ) ==> r == Err::<GridHandle, LayoutError>(LayoutError::InvalidHandle),
            !grid.expands_twice() && can_host(
                old(self).grids(),
                old(self).frames().len(),
                grid.parent_spec(),
            ) ==> r.is_ok() && r.unwrap()@ == old(self).grids().len() && final(self).grids() == old(
                self,
            ).grids().push(grid.built()),
    {
        let data = match grid.build() {
            Ok(data) => data,
            Err(e) => {
                return Err(e);
            },
        };
        let parent = data.parent();
        if !self.frame_renderer.contains(parent) {
            return Err(LayoutError::InvalidHandle);
        }
        if self.grid_renderer.host(parent).is_some() {
            return Err(LayoutError::InvalidHandle);
        }
        let handle = self.install(data);
        Ok(handle)
    }

    /// Makes a frame on the grid, at column `x` and row `y`, and returns its
    /// handle. A coordinate that is left open becomes the lowest free track
    /// of its axis. The frame is opaque white with a margin of ten pixels, and
    /// its rectangle is empty until the grid next divides. `InvalidHandle` for
    /// a handle that names no grid, `GridFull` where an axis that is left open
    /// has no free track; no frame is made then, and nothing is changed.
    pub fn add_frame_in_grid(&mut self, grid: GridHandle, x: Option<XName>, y: Option<YName>) -> (r:
        Result<FrameHandle, LayoutError>)
        requires
            old(self).wf(),
        ensures
            final(self).wf(),
            grid@ >= old(self).grids().len() ==> r == Err::<FrameHandle, LayoutError>(
                LayoutError::InvalidHandle,
            ),
            grid@ < old(self).grids().len() && old(self).grids()[grid@ as int].slot_for(
                x.spec_index(),
                y.spec_index(),
            ).is_none() ==> r == Err::<FrameHandle, LayoutError>(LayoutError::GridFull),
            r.is_err() ==> final(self).grids() == old(self).grids() && final(self).arena() == old(
                self,
            ).arena(),
            grid@ < old(self).grids().len() && old(self).grids()[grid@ as int].slot_for(
                x.spec_index(),
                y.spec_index(),
            ).is_some() ==> ({
                &&& r.is_ok()
                &&& r.unwrap()@ == old(self).frames().len()
                &&& final(self).frames() == old(self).frames().push(
                    record_of(
                        grid_member_message(),
                        camera_of(old(self).grids()[grid@ as int].parent),
                    ),
                )
                &&& final(self).dirty() == lowered(old(self).dirty(), old(self).frames().len())
                &&& final(self).grids() == old(self).grids().update(
                    grid@ as int,
                    old(self).grids()[grid@ as int].placed(
                        old(self).frames().len(),
                        x.spec_index(),
                        y.spec_index(),
                    ),
                )
            }),
    {
        if !self.grid_renderer.contains(grid) {
            return Err(LayoutError::InvalidHandle);
        }
        if self.grid_renderer.get(grid).slot(x, y).is_none() {
            return Err(LayoutError::GridFull);
        }
        let parent = self.grid_renderer.get_parent_handle(grid);
        let ten = VUnit(640);
        let handle = self.add_record(
            FrameData {
                data: BBox::zeroed(),
                margin: MarginBox { top: ten, bottom: ten, left: ten, right: ten },
                color: [255u8, 255u8, 255u8, 255u8],
                camera_index: camera_index(parent),
            },
        );
        self.place(grid, handle, x, y);
        Ok(handle)
    }

    /// Puts the newest frame on a grid.
    fn place(&mut self, grid: GridHandle, handle: FrameHandle, x: Option<XName>, y: Option<YName>) -> (r:
        Result<(), LayoutError>)
        requires
            old(self).wf(),
            grid@ < old(self).grids().len(),
            handle@ + 1 == old(self).frames().len(),
            old(self).grids()[grid@ as int].parent < handle@,
        ensures
            final(self).wf(),
            final(self).arena() == old(self).arena(),
            final(self).grids() == old(self).grids().update(
                grid@ as int,
                old(self).grids()[grid@ as int].placed(handle@, x.spec_index(), y.spec_index()),
            ),
            r.is_ok() == old(self).grids()[grid@ as int].slot_for(
                x.spec_index(),
                y.spec_index(),
            ).is_some(),
            r.is_err() ==> r == Err::<(), LayoutError>(LayoutError::GridFull),
    {
        let r = self.grid_renderer.add_frame(&mut self.frame_renderer, grid, handle, x, y);
        assert(grids_wf(self.grid_renderer@, self.frame_renderer@.len())) by {
            let grids = self.grid_renderer@;
            let before = old(self).grid_renderer@;
            let n = self.frame_renderer@.len();
            assert forall|g: int| 0 <= g < grids.len() implies (#[trigger] grids[g]).fits(n)
                && nested(grids[g]) && grids[g].parent == before[g].parent by {
                assert(before[g].fits(n));
                assert(nested(before[g]));
                if g == grid@ {
                    let was = before[g];
                    let now = grids[g];
                    assert forall|k: int| 0 <= k < now.placements.len() implies (
                    #[trigger] now.placements[k]).frame < n && now.placements[k].frame
                        > now.parent by {
                        if k < was.placements.len() {
                            assert(now.placements[k] == was.placements[k]);
                        }
                    }
                }
            }
        }
        r
    }

    /// Adds a grid that can divide its parent.
    fn install(&mut self, data: crate::grid::data::GridData) -> (handle: GridHandle)
        requires
            old(self).wf(),
            data@.placements.len() == 0,
            can_host(old(self).grids(), old(self).frames().len(), data@.parent),
        ensures
            final(self).wf(),
            final(self).arena() == old(self).arena(),
            final(self).grids() == old(self).grids().push(data@),
            handle@ == old(self).grids().len(),
    {
        let parent = data.parent();
        let none = self.grid_renderer.host(parent);
        let handle = self.grid_renderer.add(data);
        assert(grids_wf(self.grid_renderer@, self.frame_renderer@.len())) by {
            let grids = self.grid_renderer@;
            let before = old(self).grid_renderer@;
            assert forall|g: int| 0 <= g < grids.len() implies (#[trigger] grids[g]).fits(
                self.frame_renderer@.len(),
            ) && nested(grids[g]) by {
                if g < before.len() {
                    assert(grids[g] == before[g]);
                }
            }
            assert forall|g: int, h: int| 0 <= g < h < grids.len() implies (#[trigger] grids[g]).parent
                != (#[trigger] grids[h]).parent by {
                assert(grids[g] == before[g]);
                if h < before.len() {
                    assert(grids[h] == before[h]);
                }
            }
        }
        handle
    }

    /// Serves one request, and says what is left to do outside the layout.
    ///
    /// A request that names a frame or grid that does not exist, or a new one
    /// by another handle than the next, is turned down with `InvalidHandle`
    /// and changes nothing; so is a grid that would grow along both axes, with
    /// `MultipleExpandingAxes`. A frame for a grid without a free track is
    /// made all the same, so that the sender's count of frames stays right,
    /// but sits on no grid: `GridFull`.
    pub fn apply(&mut self, msg: UpdateMessage) -> (r: Result<Action, LayoutError>)
        requires
            old(self).wf(),
        ensures
            final(self).wf(),
            serves(old(self).grids(), old(self).arena(), msg, final(self).grids(), final(self).arena(), r),
    {
        match msg {
            UpdateMessage::Draw => Ok(Action::Draw),
            UpdateMessage::Exit => Ok(Action::Exit),
            UpdateMessage::Prepare => {
                let mark = self.prepare();
                Ok(Action::Upload(mark))
            },
            UpdateMessage::ModifyGrid(_grid, _g) => Ok(Action::Nothing),
            UpdateMessage::ModifyFrame(h, f) => {
                if !self.frame_renderer.contains(h) {
                    return Err(LayoutError::InvalidHandle);
                }
                let mut action = Action::Nothing;
                if let Some(size) = f.size {
                    self.frame_renderer.update(h, &size);
                    self.carry(h);
                    if h.index() == 0 {
                        action =
                        Action::ResizeSurface {
                            width: whole_pixels(size.w),
                            height: whole_pixels(size.h),
                        };
                    }
                }
                if let Some(color) = f.color {
                    self.frame_renderer.update_color(h, color);
                }
                Ok(action)
            },
            UpdateMessage::NewFloatingFrame(f) => {
                self.add_record(record(f, 0));
                Ok(Action::Nothing)
            },
            UpdateMessage::NewFrame(grid, x, y, f, frame_handle) => {
                if !self.grid_renderer.contains(grid) || frame_handle.index()
                    != self.frame_renderer.len() {
                    return Err(LayoutError::InvalidHandle);
                }
                let parent = self.grid_renderer.get_parent_handle(grid);
                proof {
                    assert(self.grids()[grid@ as int].fits(self.frames().len()));
                }
                let handle = self.add_record(record(f, camera_index(parent)));
                match self.place(grid, handle, x, y) {
                    Ok(()) => Ok(Action::Nothing),
                    Err(e) => Err(e),
                }
            },
            UpdateMessage::NewGrid(grid, builder) => {
                let next = self.grid_renderer.len();
                match builder.build() {
                    Err(e) => Err(e),
                    Ok(data) => {
                        let parent = data.parent();
                        if grid.index() != next || !self.frame_renderer.contains(parent)
                            || self.grid_renderer.host(parent).is_some() {
                            return Err(LayoutError::InvalidHandle);
                        }
                        self.install(data);
                        Ok(Action::Nothing)
                    },
                }
            },
        }
    }

    /// Brings every frame up to date for drawing: every grid, oldest first,
    /// divides the rectangle of its parent anew. Returns the lowest index of
    /// a frame touched since the last call, and forgets it.
    pub fn prepare(&mut self) -> (mark: Option<usize>)
        requires
            old(self).wf(),
        ensures
            final(self).wf(),
            final(self).grids() == old(self).grids(),
            final(self).frames() == all_updated(
                old(self).grids(),
                old(self).frames(),
                old(self).grids().len(),
            ),
            final(self).dirty().is_none(),
            index_view(mark) == all_marked(
                old(self).grids(),
                old(self).frames(),
                old(self).dirty(),
                old(self).grids().len(),
            ),
    {
        self.grid_renderer.prepare(&mut self.frame_renderer);
        self.frame_renderer.prepare()
    }
}

/// The frames after one of them got a new rectangle and the change was
/// carried down.
pub open spec fn resized(grids: Seq<GridView>, arena: Arena, frame: nat, size: BBox) -> Arena {
    cascade(
        grids,
        (
            arena.0.update(frame as int, FrameData { data: size, ..arena.0[frame as int] }),
            lowered(arena.1, frame),
        ),
        frame,
        arena.0.len(),
    )
}

/// The frames after one of them got a new colour.
pub open spec fn recolored(arena: Arena, frame: nat, color: [u8; 4]) -> Arena {
    (
        arena.0.update(frame as int, FrameData { color: color, ..arena.0[frame as int] }),
        lowered(arena.1, frame),
    )
}

/// The frames after one of them was changed as the message says: first the
/// rectangle, if one is given, then the colour, if one is given.
pub open spec fn modified(grids: Seq<GridView>, arena: Arena, frame: nat, f: FrameMessage) -> Arena {
    let sized = match f.size {
        Some(b) => resized(grids, arena, frame, b),
        None => arena,
    };
    match f.color {
        Some(c) => recolored(sized, frame, c),
        None => sized,
    }
}

/// What is left to do after a frame was changed: the drawing surface follows
/// the window, so it is resized where the window got a new rectangle.
pub open spec fn after_modify(frame: nat, f: FrameMessage) -> Action {
    match f.size {
        Some(b) => if frame == 0 {
            Action::ResizeSurface { width: surface_pixels(b.w), height: surface_pixels(b.h) }
        } else {
            Action::Nothing
        },
        None => Action::Nothing,
    }
}

/// Whether serving `msg` leads from the grids and frames `(grids, arena)` to
/// `(grids1, arena1)` with the result `r`.
pub open spec fn serves(
    grids: Seq<GridView>,
    arena: Arena,
    msg: UpdateMessage,
    grids1: Seq<GridView>,
    arena1: Arena,
    r: Result<Action, LayoutError>,
) -> bool {
    let same = grids1 == grids && arena1 == arena;
    match msg {
        UpdateMessage::ModifyFrame(h, f) => if h@ < arena.0.len() {
            &&& grids1 == grids
            &&& arena1 == modified(grids, arena, h@, f)
            &&& r == Ok::<Action, LayoutError>(after_modify(h@, f))
        } else {
            same && r == Err::<Action, LayoutError>(LayoutError::InvalidHandle)
        },
        UpdateMessage::NewFrame(g, x, y, f, h) => if g@ < grids.len() && h@ == arena.0.len() {
            &&& arena1 == (
                arena.0.push(record_of(f, camera_of(grids[g@ as int].parent))),
                lowered(arena.1, arena.0.len()),
            )
            &&& grids1 == grids.update(
                g@ as int,
                grids[g@ as int].placed(h@, x.spec_index(), y.spec_index()),
            )
            &&& r == if grids[g@ as int].slot_for(x.spec_index(), y.spec_index()).is_some() {
                Ok::<Action, LayoutError>(Action::Nothing)
            } else {
                Err::<Action, LayoutError>(LayoutError::GridFull)
            }
        } else {
            same && r == Err::<Action, LayoutError>(LayoutError::InvalidHandle)
        },
        UpdateMessage::NewFloatingFrame(f) => {
            &&& grids1 == grids
            &&& arena1 == (arena.0.push(record_of(f, 0)), lowered(arena.1, arena.0.len()))
            &&& r == Ok::<Action, LayoutError>(Action::Nothing)
        },
        UpdateMessage::ModifyGrid(_, _) => same && r == Ok::<Action, LayoutError>(Action::Nothing),
        UpdateMessage::NewGrid(g, b) => if b.expands_twice() {
            same && r == Err::<Action, LayoutError>(LayoutError::MultipleExpandingAxes)
        } else if g@ == grids.len() && can_host(grids, arena.0.len(), b.parent_spec()) {
            &&& grids1 == grids.push(b.built())
            &&& arena1 == arena
            &&& r == Ok::<Action, LayoutError>(Action::Nothing)
        } else {
            same && r == Err::<Action, LayoutError>(LayoutError::InvalidHandle)
        },
        UpdateMessage::Prepare => {
            &&& grids1 == grids
            &&& arena1 == (all_updated(grids, arena.0, grids.len()), None::<nat>)
            &&& r matches Ok(Action::Upload(mark))
            &&& index_view(mark) == all_marked(grids, arena.0, arena.1, grids.len())
        },
        UpdateMessage::Draw => same && r == Ok::<Action, LayoutError>(Action::Draw),
        UpdateMessage::Exit => same && r == Ok::<Action, LayoutError>(Action::Exit),
    }
}

/// The whole pixels of a length, none for a length below nothing.
fn whole_pixels(v: VUnit) -> (p: u32)
    ensures
        p == surface_pixels(v),
{
    let px = v.truct_to_whole();
    if px < 0 {
        0
    } else {
        px as u32
    }
}

/// Whether a new grid can divide the frame: the frame exists and no grid
/// divides it yet.
pub open spec fn can_host(grids: Seq<GridView>, frames: nat, parent: nat) -> bool {
    parent < frames && host_of(grids, parent).is_none()
}

/// The record of a frame made from a message.
fn record(f: FrameMessage, camera: u32) -> (r: FrameData)
    ensures
        r == record_of(f, camera),
{
    FrameData {
        data: match f.size {
            Some(b) => b,
            None => BBox::zeroed(),
        },
        margin: match f.margin {
            Some(m) => m,
            None => MarginBox::zeroed(),
        },
        color: match f.color {
            Some(c) => c,
            None => [0u8, 0u8, 0u8, 0u8],
        },
        camera_index: camera,
    }
}

/// The index of a frame as a camera index.
fn camera_index(frame: FrameHandle) -> (c: u32)
    ensures
        c == camera_of(frame@),
{
    let i = frame.index();
    if i <= u32::MAX as usize {
        i as u32
    } else {
        u32::MAX
    }
}

} // verus!
