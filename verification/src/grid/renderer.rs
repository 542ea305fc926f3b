//! The table of grids.

use crate::error::LayoutError;
use crate::frame::data::FrameData;
use crate::frame::renderer::{FrameHandle, FrameRenderer};
use crate::grid::builder::{XName, YName};
use crate::grid::data::{GridData, GridView};
use crate::handle::{FallableHandleLike, Handle, HandleLike};
use crate::manager::BBox;
use vstd::prelude::*;

verus! {

/// Marks a handle as the name of a grid.
#[derive(Clone, Copy, Default, Debug)]
pub struct GridT {}

/// The name of a grid in the table that issued it.
pub type GridHandle = Handle<GridT>;

/// The first of the grids that divides the given frame, if one does.
pub open spec fn host_of(grids: Seq<GridView>, frame: nat) -> Option<nat> {
    if exists|g: nat| is_first_host(grids, frame, g) {
        Some(choose|g: nat| is_first_host(grids, frame, g))
    } else {
        None
    }
}

/// Whether grid `g` divides the frame and no grid before it does.
pub open spec fn is_first_host(grids: Seq<GridView>, frame: nat, g: nat) -> bool {
    &&& g < grids.len()
    &&& grids[g as int].parent == frame
    &&& forall|j: int| 0 <= j < g ==> (#[trigger] grids[j]).parent != frame
}

/// There is only one first host.
pub proof fn lemma_first_host(grids: Seq<GridView>, frame: nat, g: nat)
    requires
        is_first_host(grids, frame, g),
    ensures
        host_of(grids, frame) == Some(g),
{
    let c = choose|c: nat| is_first_host(grids, frame, c);
    if c < g {
        assert(grids[c as int].parent != frame);
    }
    if g < c {
        assert(grids[g as int].parent != frame);
    }
}

/// A frame that a grid divides keeps that grid: whatever grids are added, and
/// whatever frames are placed, as long as every grid keeps its parent.
pub proof fn lemma_host_stays(before: Seq<GridView>, after: Seq<GridView>, frame: nat)
    requires
        before.len() <= after.len(),
        forall|g: int| 0 <= g < before.len() ==> (#[trigger] after[g]).parent == before[g].parent,
        host_of(before, frame).is_some(),
    ensures
        host_of(after, frame) == host_of(before, frame),
{
    let g = choose|g: nat| is_first_host(before, frame, g);
    assert(is_first_host(after, frame, g)) by {
        assert(after[g as int].parent == before[g as int].parent);
        assert forall|j: int| 0 <= j < g implies (#[trigger] after[j]).parent != frame by {
            assert(before[j].parent != frame);
        }
    }
    lemma_first_host(after, frame, g);
}

/// The frames after every one of the first `k` grids, in the order of the
/// table, divided the rectangle of its parent anew.
pub open spec fn all_updated(grids: Seq<GridView>, frames: Seq<FrameData>, k: nat) -> Seq<FrameData>
    decreases k,
{
    if k == 0 {
        frames
    } else {
        grids[k - 1].updated(all_updated(grids, frames, (k - 1) as nat))
    }
}

/// The watermark after the same.
pub open spec fn all_marked(
    grids: Seq<GridView>,
    frames: Seq<FrameData>,
    mark: Option<nat>,
    k: nat,
) -> Option<nat>
    decreases k,
{
    if k == 0 {
        mark
    } else {
        grids[k - 1].updated_mark(
            all_updated(grids, frames, (k - 1) as nat),
            all_marked(grids, frames, mark, (k - 1) as nat),
        )
    }
}

/// Every grid names only frames among the first `n`.
pub open spec fn all_fit(grids: Seq<GridView>, n: nat) -> bool {
    forall|g: int| 0 <= g < grids.len() ==> (#[trigger] grids[g]).fits(n)
}

/// An update leaves as many frames as there were.
pub proof fn lemma_updated_len(g: GridView, frames: Seq<FrameData>)
    requires
        g.fits(frames.len()),
    ensures
        g.updated(frames).len() == frames.len(),
{
    g.lemma_written(frames, frames[g.parent as int].data, g.placements.len());
}

/// A growing table of grids, addressed by handle, which also tells for a
/// frame which grid divides it.
pub struct GridRenderer {
    data: Vec<GridData>,
}

impl View for GridRenderer {
    type V = Seq<GridView>;

    /// The grids, in the order in which they were added.
    closed spec fn view(&self) -> Seq<GridView> {
        self.data@.map_values(|g: GridData| g@)
    }
}

impl GridRenderer {
    /// The empty table.
    pub fn new() -> (r: GridRenderer)
        ensures
            r@ == Seq::<GridView>::empty(),
    {
        let r = GridRenderer { data: Vec::new() };
        assert(r@ =~= Seq::<GridView>::empty());
        r
    }

    /// How many grids the table holds.
    pub fn len(&self) -> (n: usize)
        ensures
            n == self@.len(),
    {
        self.data.len()
    }

    /// Whether the handle names a grid of this table.
    pub fn contains(&self, grid: GridHandle) -> (b: bool)
        ensures
            b == (grid@ < self@.len()),
    {
        grid.index() < self.data.len()
    }

    /// The grid that the handle names.
    pub fn get(&self, grid: GridHandle) -> (g: &GridData)
        requires
            grid@ < self@.len(),
        ensures
            g@ == self@[grid@ as int],
    {
        &self.data[grid.index()]
    }

    /// Has every grid, in the order of the table, divide the rectangle of its
    /// parent anew. A grid is added after the frame it divides, so that one
    /// pass brings every frame up to date.
    pub fn prepare(&self, frame_renderer: &mut FrameRenderer)
        requires
            old(frame_renderer).wf(),
            all_fit(self@, old(frame_renderer)@.len()),
        ensures
            final(frame_renderer).wf(),
            final(frame_renderer)@ == all_updated(self@, old(frame_renderer)@, self@.len()),
            final(frame_renderer).dirty() == all_marked(
                self@,
                old(frame_renderer)@,
                old(frame_renderer).dirty(),
                self@.len(),
            ),
            final(frame_renderer)@.len() == old(frame_renderer)@.len(),
    {
        let ghost start = frame_renderer@;
        let ghost mark = frame_renderer.dirty();
        let mut k: usize = 0;
        while k < self.data.len()
            invariant
                k <= self.data.len(),
                self@.len() == self.data.len(),
                frame_renderer.wf(),
                frame_renderer@.len() == start.len(),
                all_fit(self@, start.len()),
                frame_renderer@ == all_updated(self@, start, k as nat),
                frame_renderer.dirty() == all_marked(self@, start, mark, k as nat),
            decreases self.data.len() - k,
        {
            assert(self@[k as int] == self.data[k as int]@);
            assert(self@[k as int].fits(start.len()));
            proof {
                lemma_updated_len(self@[k as int], frame_renderer@);
            }
            self.data[k].update(frame_renderer);
            k = k + 1;
        }
    }

    /// Has one grid divide the rectangle of its parent anew.
    pub fn update(&self, grid_handle: GridHandle, _bounds: &BBox, frame_renderer: &mut FrameRenderer)
        requires
            old(frame_renderer).wf(),
            grid_handle@ < self@.len(),
            self@[grid_handle@ as int].fits(old(frame_renderer)@.len()),
        ensures
            final(frame_renderer).wf(),
            final(frame_renderer)@ == self@[grid_handle@ as int].updated(old(frame_renderer)@),
            final(frame_renderer).dirty() == self@[grid_handle@ as int].updated_mark(
                old(frame_renderer)@,
                old(frame_renderer).dirty(),
            ),
            final(frame_renderer)@.len() == old(frame_renderer)@.len(),
    {
        proof {
            lemma_updated_len(self@[grid_handle@ as int], frame_renderer@);
        }
        self.data[grid_handle.index()].update(frame_renderer);
    }

    /// Places a frame on one grid, at column `x` and row `y`; see
    /// `GridData::add_frame`. The other grids stay as they are.
    pub fn add_frame(
        &mut self,
        _frame_renderer: &mut FrameRenderer,
        grid_handle: GridHandle,
        frame_handle: FrameHandle,
        x: Option<XName>,
        y: Option<YName>,
    ) -> (r: Result<(), LayoutError>)
        requires
            grid_handle@ < old(self)@.len(),
        ensures
            final(self)@ == old(self)@.update(
                grid_handle@ as int,
                old(self)@[grid_handle@ as int].placed(
                    frame_handle@,
                    x.spec_index(),
                    y.spec_index(),
                ),
            ),
            r.is_ok() == old(self)@[grid_handle@ as int].slot_for(
                x.spec_index(),
                y.spec_index(),
            ).is_some(),
            r.is_err() ==> r == Err::<(), LayoutError>(LayoutError::GridFull),
            *final(_frame_renderer) == *old(_frame_renderer),
    {
        let index = grid_handle.index();
        let r = self.data[index].add_frame(frame_handle, x, y);
        assert(final(self)@ =~= old(self)@.update(
            grid_handle@ as int,
            old(self)@[grid_handle@ as int].placed(frame_handle@, x.spec_index(), y.spec_index()),
        ));
        r
    }

    /// Appends a grid and returns its handle.
    pub fn add(&mut self, g: GridData) -> (handle: GridHandle)
        ensures
            final(self)@ == old(self)@.push(g@),
            handle@ == old(self)@.len(),
    {
        self.data.push(g);
        assert(final(self)@ =~= old(self)@.push(g@));
        GridHandle::new(self.data.len() - 1)
    }

    /// The frame that the grid divides.
    pub fn get_parent_handle(&self, grid: GridHandle) -> (h: FrameHandle)
        requires
            grid@ < self@.len(),
        ensures
            h@ == self@[grid@ as int].parent,
    {
        self.data[grid.index()].parent()
    }

    /// The first grid that divides the frame, if one does.
    pub fn host(&self, frame: FrameHandle) -> (r: Option<GridHandle>)
        ensures
            r.spec_index() == host_of(self@, frame@),
            r matches Some(g) ==> g@ < self@.len() && self@[g@ as int].parent == frame@,
            r.is_none() ==> forall|j: int|
                0 <= j < self@.len() ==> (#[trigger] self@[j]).parent != frame@,
    {
        let mut k: usize = 0;
        while k < self.data.len()
            invariant
                k <= self.data.len(),
                self@.len() == self.data.len(),
                forall|j: int| 0 <= j < k ==> (#[trigger] self@[j]).parent != frame@,
            decreases self.data.len() - k,
        {
            assert(self@[k as int] == self.data[k as int]@);
            if self.data[k].parent().index() == frame.index() {
                proof {
                    lemma_first_host(self@, frame@, k as nat);
                }
                return Some(GridHandle::new(k));
            }
            k = k + 1;
        }
        proof {
            assert forall|g: nat| !is_first_host(self@, frame@, g) by {
                if g < self@.len() {
                    assert(self@[g as int].parent != frame@);
                }
            }
        }
        None
    }
}

} // verus!
