//! One grid: the description of its two axes and the frames placed on them.

use crate::error::LayoutError;
use crate::frame::data::FrameData;
use crate::frame::renderer::{lowered, FrameHandle, FrameRenderer};
use crate::grid::builder::{XName, YName};
use crate::grid::lookup::{
    contains_index, count_entries, distinct_beyond, lemma_track_in_range, nats, track_index,
    track_of,
};
use crate::grid::place::{
    holds, is_free, is_track, lemma_lowest_free_unique, lemma_no_free, next_slot, resolve,
    slot_view, taken,
};
use crate::grid::solve::{axis_solution, solve_spacer, SpacerSolved};
use crate::grid::track::{
    fixed_entries, lemma_entries, materialize, repeat_entries, GridSpacer, SpacerUnit,
};
use crate::handle::{index_view, FallableHandleLike, HandleLike};
use crate::manager::BBox;
use vstd::prelude::*;

verus! {

/// The axis along which a grid grows.
#[derive(Clone, Copy, Debug, PartialEq, Eq, Structural)]
pub enum GridExpandDir {
    X,
    Y,
}

/// A frame and the tracks on which it sits.
#[derive(Clone, Copy, Debug)]
pub struct HandleSpacerLocation {
    pub major: usize,
    pub cross: usize,
    pub handle: FrameHandle,
}

/// A placement as the contracts speak of it.
pub struct Placement {
    /// The track on the major axis.
    pub major: nat,
    /// The track on the cross axis.
    pub cross: nat,
    /// The index of the frame.
    pub frame: nat,
}

impl View for HandleSpacerLocation {
    type V = Placement;

    open spec fn view(&self) -> Placement {
        Placement { major: self.major as nat, cross: self.cross as nat, frame: self.handle@ }
    }
}

/// A grid as the contracts speak of it.
pub struct GridView {
    /// The axis that may carry the repeating track.
    pub major: Seq<SpacerUnit>,
    /// The other axis.
    pub cross: Seq<SpacerUnit>,
    /// Which axis is the major one: the horizontal axis for `Some(X)`, the
    /// vertical one otherwise.
    pub expand: Option<GridExpandDir>,
    /// The index of the frame whose rectangle the grid divides.
    pub parent: nat,
    /// The frames placed so far, oldest first.
    pub placements: Seq<Placement>,
}

/// The track of every placement on one of the two axes, oldest first.
pub open spec fn axis_indices(placements: Seq<Placement>, major_axis: bool) -> Seq<nat> {
    placements.map_values(
        |p: Placement|
            if major_axis {
                p.major
            } else {
                p.cross
            },
    )
}

/// The rectangle where a track of the major axis crosses one of the cross axis.
pub open spec fn crossing(expand: Option<GridExpandDir>, m: SpacerSolved, c: SpacerSolved) -> BBox {
    if expand == Some(GridExpandDir::X) {
        BBox { x: m.pos, y: c.pos, w: m.len, h: c.len }
    } else {
        BBox { x: c.pos, y: m.pos, w: c.len, h: m.len }
    }
}

impl GridView {
    /// The tracks of every placement, oldest first.
    pub open spec fn coords(self) -> Seq<(nat, nat)> {
        self.placements.map_values(|p: Placement| (p.major, p.cross))
    }

    /// The track asked for on the major axis, when columns are asked for by
    /// `x` and rows by `y`.
    pub open spec fn want_major(self, x: Option<nat>, y: Option<nat>) -> Option<nat> {
        if self.expand == Some(GridExpandDir::X) {
            x
        } else {
            y
        }
    }

    /// The track asked for on the cross axis.
    pub open spec fn want_cross(self, x: Option<nat>, y: Option<nat>) -> Option<nat> {
        if self.expand == Some(GridExpandDir::X) {
            y
        } else {
            x
        }
    }

    /// The tracks that a frame asked to sit at column `x` and row `y` gets.
    pub open spec fn slot_for(self, x: Option<nat>, y: Option<nat>) -> Option<(nat, nat)> {
        resolve(
            self.coords(),
            self.major,
            self.cross,
            self.want_major(x, y),
            self.want_cross(x, y),
        )
    }

    /// The grid with one more frame on the given tracks.
    pub open spec fn with(self, frame: nat, slot: (nat, nat)) -> GridView {
        GridView {
            placements: self.placements.push(
                Placement { major: slot.0, cross: slot.1, frame: frame },
            ),
            ..self
        }
    }

    /// The grid after a frame was asked to sit at column `x` and row `y`: with
    /// the frame on the tracks it gets, or as before where it gets none.
    pub open spec fn placed(self, frame: nat, x: Option<nat>, y: Option<nat>) -> GridView {
        match self.slot_for(x, y) {
            Some(slot) => self.with(frame, slot),
            None => self,
        }
    }

    /// The description of one of the two axes.
    pub open spec fn axis(self, major_axis: bool) -> Seq<SpacerUnit> {
        if major_axis {
            self.major
        } else {
            self.cross
        }
    }

    /// The indices in use on the axis beyond its fixed tracks, each once. As
    /// many copies of the repeating track stand as this holds indices.
    pub open spec fn used(self, major_axis: bool) -> Seq<nat> {
        distinct_beyond(
            axis_indices(self.placements, major_axis),
            fixed_entries(self.axis(major_axis)),
        )
    }

    /// The tracks of one axis when the grid divides `parent`: the major axis
    /// runs along the width for `Some(X)` and along the height otherwise.
    pub open spec fn tracks(self, major_axis: bool, parent: BBox) -> Seq<SpacerSolved> {
        let along_x = major_axis == (self.expand == Some(GridExpandDir::X));
        axis_solution(
            self.axis(major_axis),
            self.used(major_axis).len(),
            if along_x {
                parent.x@
            } else {
                parent.y@
            },
            if along_x {
                parent.w@
            } else {
                parent.h@
            },
        )
    }

    /// The rectangle of a frame placed at `p` when the grid divides `parent`:
    /// where its track of the major axis crosses its track of the cross axis.
    /// Nothing where one of the two is no track of its axis.
    pub open spec fn rect_of(self, parent: BBox, p: Placement) -> Option<BBox> {
        match (
            track_of(self.major, self.used(true), p.major),
            track_of(self.cross, self.used(false), p.cross),
        ) {
            (Some(a), Some(b)) => Some(
                crossing(self.expand, self.tracks(true, parent)[a as int], self.tracks(false, parent)[b as int]),
            ),
            _ => None,
        }
    }

    /// The frames after the first `k` placements got their rectangles, one
    /// after the other: a later one overwrites an earlier one.
    pub open spec fn written(self, frames: Seq<FrameData>, parent: BBox, k: nat) -> Seq<FrameData>
        decreases k,
    {
        if k == 0 {
            frames
        } else {
            let before = self.written(frames, parent, (k - 1) as nat);
            let p = self.placements[k - 1];
            match self.rect_of(parent, p) {
                Some(r) => before.update(
                    p.frame as int,
                    FrameData { data: r, ..before[p.frame as int] },
                ),
                None => before,
            }
        }
    }

    /// The watermark after the first `k` placements got their rectangles.
    pub open spec fn marked(self, mark: Option<nat>, parent: BBox, k: nat) -> Option<nat>
        decreases k,
    {
        if k == 0 {
            mark
        } else {
            let before = self.marked(mark, parent, (k - 1) as nat);
            let p = self.placements[k - 1];
            match self.rect_of(parent, p) {
                Some(r) => lowered(before, p.frame),
                None => before,
            }
        }
    }

    /// The frames after the grid divided the rectangle of its parent among
    /// the frames placed on it.
    pub open spec fn updated(self, frames: Seq<FrameData>) -> Seq<FrameData> {
        self.written(frames, frames[self.parent as int].data, self.placements.len())
    }

    /// The watermark after the same.
    pub open spec fn updated_mark(self, frames: Seq<FrameData>, mark: Option<nat>) -> Option<nat> {
        self.marked(mark, frames[self.parent as int].data, self.placements.len())
    }

    /// The rectangle that the last of the first `k` placements of the frame
    /// gives it, if any of them gives it one.
    pub open spec fn last_rect(self, parent: BBox, frame: nat, k: nat) -> Option<BBox>
        decreases k,
    {
        if k == 0 {
            None
        } else {
            let p = self.placements[k - 1];
            if p.frame == frame && self.rect_of(parent, p).is_some() {
                self.rect_of(parent, p)
            } else {
                self.last_rect(parent, frame, (k - 1) as nat)
            }
        }
    }

    /// What `written` leaves in each frame: the rectangle of the last
    /// placement that gives the frame one, and everything else as it was.
    pub proof fn lemma_written(self, frames: Seq<FrameData>, parent: BBox, k: nat)
        requires
            k <= self.placements.len(),
            self.fits(frames.len()),
        ensures
            self.written(frames, parent, k).len() == frames.len(),
            forall|j: int|
                0 <= j < frames.len() ==> #[trigger] self.written(frames, parent, k)[j] == (
                match self.last_rect(parent, j as nat, k) {
                    Some(r) => FrameData { data: r, ..frames[j] },
                    None => frames[j],
                }),
        decreases k,
    {
        if k > 0 {
            self.lemma_written(frames, parent, (k - 1) as nat);
            let p = self.placements[k - 1];
            assert(p.frame < frames.len());
        }
    }

    /// A frame that is not placed on the grid gets no rectangle from it.
    pub proof fn lemma_not_placed(self, parent: BBox, frame: nat, k: nat)
        requires
            k <= self.placements.len(),
            forall|i: int| 0 <= i < self.placements.len() ==> (#[trigger] self.placements[i]).frame != frame,
        ensures
            self.last_rect(parent, frame, k).is_none(),
        decreases k,
    {
        if k > 0 {
            self.lemma_not_placed(parent, frame, (k - 1) as nat);
        }
    }

    /// At most one axis repeats, and it is the major one.
    pub open spec fn single_expansion(self) -> bool {
        repeat_entries(self.major) <= 1 && repeat_entries(self.cross) == 0
    }

    /// Every frame that the grid names is one of the first `n` frames.
    pub open spec fn fits(self, n: nat) -> bool {
        &&& self.parent < n
        &&& forall|k: int| 0 <= k < self.placements.len() ==> (#[trigger] self.placements[k]).frame < n
    }
}

/// Dividing the same parent rectangle twice changes nothing the second time:
/// where the parent of a grid is not itself placed on it, so that its
/// rectangle stays as it is, every frame has after a second update what it had
/// after the first.
pub proof fn lemma_update_idempotent(g: GridView, frames: Seq<FrameData>)
    requires
        g.fits(frames.len()),
        forall|i: int| 0 <= i < g.placements.len() ==> (#[trigger] g.placements[i]).frame != g.parent,
    ensures
        g.updated(g.updated(frames)) == g.updated(frames),
{
    let n = g.placements.len();
    let parent = frames[g.parent as int].data;
    let once = g.updated(frames);
    g.lemma_written(frames, parent, n);
    g.lemma_not_placed(parent, g.parent, n);
    assert(once[g.parent as int] == frames[g.parent as int]);
    g.lemma_written(once, parent, n);
    assert(g.updated(once) =~= once);
}

/// The grid after a run of requests: the frames `frames`, one for each request
/// in `asks`, asked to sit at the column and row that the request names.
pub open spec fn run(g: GridView, frames: Seq<nat>, asks: Seq<(Option<nat>, Option<nat>)>) -> GridView
    decreases asks.len(),
{
    if asks.len() == 0 {
        g
    } else {
        run(g, frames.drop_last(), asks.drop_last()).placed(
            frames.last(),
            asks.last().0,
            asks.last().1,
        )
    }
}

/// Which tracks a run of requests fills is settled by the requests alone: two
/// grids with the same axes, whose frames sit on the same tracks, end with
/// their frames on the same tracks after the same requests, whichever frames
/// the requests are made for.
pub proof fn lemma_slots_determined(
    a: GridView,
    b: GridView,
    frames_a: Seq<nat>,
    frames_b: Seq<nat>,
    asks: Seq<(Option<nat>, Option<nat>)>,
)
    requires
        a.major == b.major,
        a.cross == b.cross,
        a.expand == b.expand,
        a.coords() == b.coords(),
        frames_a.len() == asks.len(),
        frames_b.len() == asks.len(),
    ensures
        run(a, frames_a, asks).coords() == run(b, frames_b, asks).coords(),
        run(a, frames_a, asks).major == a.major,
        run(a, frames_a, asks).cross == a.cross,
        run(a, frames_a, asks).expand == a.expand,
        run(b, frames_b, asks).major == b.major,
        run(b, frames_b, asks).cross == b.cross,
        run(b, frames_b, asks).expand == b.expand,
    decreases asks.len(),
{
    if asks.len() > 0 {
        lemma_slots_determined(a, b, frames_a.drop_last(), frames_b.drop_last(), asks.drop_last());
        let a1 = run(a, frames_a.drop_last(), asks.drop_last());
        let b1 = run(b, frames_b.drop_last(), asks.drop_last());
        let x = asks.last().0;
        let y = asks.last().1;
        assert(a1.slot_for(x, y) == b1.slot_for(x, y));
        match a1.slot_for(x, y) {
            Some(slot) => {
                assert(a1.with(frames_a.last(), slot).coords() =~= a1.coords().push(slot));
                assert(b1.with(frames_b.last(), slot).coords() =~= b1.coords().push(slot));
            },
            None => {},
        }
    }
}

/// One grid: its parent frame, its two axes, and the frames placed on them.
pub struct GridData {
    handles: Vec<HandleSpacerLocation>,
    cross_spacer: GridSpacer,
    major_spacer: GridSpacer,
    expand_dir: Option<GridExpandDir>,
    parent_frame_handle: FrameHandle,
}

impl View for GridData {
    type V = GridView;

    closed spec fn view(&self) -> GridView {
        GridView {
            major: self.major_spacer@,
            cross: self.cross_spacer@,
            expand: self.expand_dir,
            parent: self.parent_frame_handle@,
            placements: self.handles@.map_values(|h: HandleSpacerLocation| h@),
        }
    }
}

impl GridData {
    /// A grid without frames. Columns are described by `x_spacer` and rows by
    /// `y_spacer`; the major axis is the horizontal one for `Some(X)` and the
    /// vertical one otherwise. Only the major axis may repeat, and only once.
    pub fn new(
        parent_frame_handle: FrameHandle,
        x_spacer: GridSpacer,
        y_spacer: GridSpacer,
        expand_dir: Option<GridExpandDir>,
    ) -> (g: Self)
        requires
            expand_dir == Some(GridExpandDir::X) ==> repeat_entries(x_spacer@) <= 1
                && repeat_entries(y_spacer@) == 0,
            expand_dir != Some(GridExpandDir::X) ==> repeat_entries(y_spacer@) <= 1
                && repeat_entries(x_spacer@) == 0,
        ensures
            g@.single_expansion(),
            g@.expand == expand_dir,
            g@.parent == parent_frame_handle@,
            g@.placements == Seq::<Placement>::empty(),
            expand_dir == Some(GridExpandDir::X) ==> g@.major == x_spacer@ && g@.cross
                == y_spacer@,
            expand_dir != Some(GridExpandDir::X) ==> g@.major == y_spacer@ && g@.cross
                == x_spacer@,
    {
        let (major_spacer, cross_spacer) = match expand_dir {
            Some(GridExpandDir::X) => (x_spacer, y_spacer),
            _ => (y_spacer, x_spacer),
        };
        let g = GridData {
            major_spacer,
            cross_spacer,
            expand_dir,
            handles: Vec::new(),
            parent_frame_handle,
        };
        assert(g@.placements =~= Seq::<Placement>::empty());
        g
    }

    /// The frame whose rectangle the grid divides.
    pub fn parent(&self) -> (h: FrameHandle)
        ensures
            h@ == self@.parent,
    {
        self.parent_frame_handle
    }

    /// How many frames are placed on the grid.
    pub fn placement_count(&self) -> (n: usize)
        ensures
            n == self@.placements.len(),
    {
        self.handles.len()
    }

    /// The `k`-th frame placed on the grid, and where it sits.
    pub fn placement(&self, k: usize) -> (p: HandleSpacerLocation)
        requires
            k < self@.placements.len(),
        ensures
            p@ == self@.placements[k as int],
    {
        self.handles[k]
    }

    /// The indices in use on one axis beyond its `fixed` fixed tracks, each once.
    fn used_indices(&self, major_axis: bool) -> (used: Vec<usize>)
        ensures
            nats(used@) == self@.used(major_axis),
    {
        let (fixed, _repeats, _lead) = if major_axis {
            count_entries(&self.major_spacer)
        } else {
            count_entries(&self.cross_spacer)
        };
        let ghost indices = axis_indices(self@.placements, major_axis);
        let mut used: Vec<usize> = Vec::new();
        let mut k: usize = 0;
        assert(indices.take(0) =~= Seq::<nat>::empty());
        assert(nats(used@) =~= Seq::<nat>::empty());
        while k < self.handles.len()
            invariant
                k <= self.handles.len(),
                indices == axis_indices(self@.placements, major_axis),
                indices.len() == self.handles.len(),
                fixed == fixed_entries(self@.axis(major_axis)),
                nats(used@) == distinct_beyond(indices.take(k as int), fixed as nat),
            decreases self.handles.len() - k,
        {
            assert(indices.take(k + 1).drop_last() =~= indices.take(k as int));
            let p = self.handles[k];
            let x = if major_axis {
                p.major
            } else {
                p.cross
            };
            assert(indices[k as int] == x as nat);
            if x >= fixed && !contains_index(&used, x) {
                let ghost before = nats(used@);
                used.push(x);
                assert(nats(used@) =~= before.push(x as nat));
            }
            k = k + 1;
        }
        assert(indices.take(self.handles.len() as int) =~= indices);
        used
    }

    /// Divides the rectangle of the parent frame among the frames placed on
    /// the grid. Each axis is solved once: as many copies of its repeating
    /// track stand as there are different indices in use beyond its fixed
    /// tracks. Every frame then gets the rectangle where its two tracks cross,
    /// in the order in which the frames were placed; a frame on an index that
    /// names no track is left as it is.
    pub fn update(&self, frames: &mut FrameRenderer)
        requires
            old(frames).wf(),
            self@.fits(old(frames)@.len()),
        ensures
            final(frames).wf(),
            final(frames)@ == self@.updated(old(frames)@),
            final(frames).dirty() == self@.updated_mark(old(frames)@, old(frames).dirty()),
    {
        let parent_box = match frames.get(self.parent_frame_handle) {
            Ok(f) => f.data,
            Err(_) => {
                return ;
            },
        };
        let along_x = match self.expand_dir {
            Some(GridExpandDir::X) => true,
            _ => false,
        };
        let (major_pos, cross_pos, major_len, cross_len) = if along_x {
            (parent_box.x, parent_box.y, parent_box.w, parent_box.h)
        } else {
            (parent_box.y, parent_box.x, parent_box.h, parent_box.w)
        };
        let major_used = self.used_indices(true);
        let cross_used = self.used_indices(false);
        let major_solve = solve_spacer(&self.major_spacer, major_used.len(), major_pos, major_len);
        let cross_solve = solve_spacer(&self.cross_spacer, cross_used.len(), cross_pos, cross_len);
        assert(major_solve@ == self@.tracks(true, parent_box));
        assert(cross_solve@ == self@.tracks(false, parent_box));
        let major_count: usize = major_solve.len();
        let cross_count: usize = cross_solve.len();
        assert(nats(major_used@).len() == major_used@.len());
        assert(nats(cross_used@).len() == cross_used@.len());
        assert(major_solve@.len() == materialize(self@.major, major_used@.len() as nat).len());
        assert(cross_solve@.len() == materialize(self@.cross, cross_used@.len() as nat).len());
        let ghost start = frames@;
        let ghost mark = frames.dirty();
        let mut k: usize = 0;
        while k < self.handles.len()
            invariant
                k <= self.handles.len(),
                frames.wf(),
                frames@.len() == start.len(),
                self@.fits(start.len()),
                self@.placements.len() == self.handles.len(),
                frames@ == self@.written(start, parent_box, k as nat),
                frames.dirty() == self@.marked(mark, parent_box, k as nat),
                major_solve@ == self@.tracks(true, parent_box),
                cross_solve@ == self@.tracks(false, parent_box),
                nats(major_used@) == self@.used(true),
                nats(cross_used@) == self@.used(false),
                materialize(self@.major, major_used@.len()).len() == major_solve@.len(),
                materialize(self@.cross, cross_used@.len()).len() == cross_solve@.len(),
                major_solve@.len() == major_count,
                cross_solve@.len() == cross_count,
                along_x == (self@.expand == Some(GridExpandDir::X)),
            decreases self.handles.len() - k,
        {
            let p = self.handles[k];
            assert(self@.placements[k as int] == p@);
            proof {
                lemma_track_in_range(self@.major, self@.used(true), p.major as nat);
                lemma_track_in_range(self@.cross, self@.used(false), p.cross as nat);
            }
            let on_major = track_index(&self.major_spacer, &major_used, p.major);
            let on_cross = track_index(&self.cross_spacer, &cross_used, p.cross);
            match (on_major, on_cross) {
                (Some(a), Some(b)) => {
                    let m = major_solve[a];
                    let c = cross_solve[b];
                    let bounds = if along_x {
                        BBox { x: m.pos, y: c.pos, w: m.len, h: c.len }
                    } else {
                        BBox { x: c.pos, y: m.pos, w: c.len, h: m.len }
                    };
                    assert(track_of(self@.major, self@.used(true), p@.major) == Some(a as nat));
                    assert(track_of(self@.cross, self@.used(false), p@.cross) == Some(b as nat));
                    assert(bounds == crossing(self@.expand, m, c));
                    assert(self@.rect_of(parent_box, p@) == Some(bounds));
                    frames.update(p.handle, &bounds);
                },
                _ => {
                    assert(self@.rect_of(parent_box, p@).is_none());
                },
            }
            k = k + 1;
        }
    }

    /// Whether a competitor holds track `i` of the open axis.
    fn is_taken(&self, major_axis: bool, other: Option<usize>, i: usize) -> (b: bool)
        ensures
            b == taken(self@.coords(), major_axis, index_view(other), i as nat),
    {
        let ghost want = index_view(other);
        let mut k: usize = 0;
        while k < self.handles.len()
            invariant
                k <= self.handles.len(),
                want == index_view(other),
                forall|j: int|
                    0 <= j < k ==> !#[trigger] holds(self@.coords()[j], major_axis, want, i as nat),
            decreases self.handles.len() - k,
        {
            let p = self.handles[k];
            let (open, shut) = if major_axis {
                (p.major, p.cross)
            } else {
                (p.cross, p.major)
            };
            let competes = match other {
                Some(o) => shut == o,
                None => true,
            };
            assert(self@.coords()[k as int] == (p.major as nat, p.cross as nat));
            if competes && open == i {
                assert(holds(self@.coords()[k as int], major_axis, want, i as nat));
                return true;
            }
            k = k + 1;
        }
        false
    }

    /// The lowest free track of the open axis, for a newcomer whose other
    /// coordinate is `other`.
    fn find_next_slot(&self, major_axis: bool, other: Option<usize>) -> (r: Option<usize>)
        ensures
            index_view(r) == next_slot(
                self@.coords(),
                self@.axis(major_axis),
                major_axis,
                index_view(other),
            ),
    {
        let ghost want = index_view(other);
        let ghost spec = self@.axis(major_axis);
        let (fixed, repeats, _before) = if major_axis {
            count_entries(&self.major_spacer)
        } else {
            count_entries(&self.cross_spacer)
        };
        let mut i: usize = 0;
        loop
            invariant
                fixed == fixed_entries(spec),
                repeats == (repeat_entries(spec) > 0),
                spec == self@.axis(major_axis),
                want == index_view(other),
                forall|j: nat| j < i ==> !is_free(self@.coords(), spec, major_axis, want, j),
            decreases usize::MAX - i,
        {
            if i >= fixed && !repeats {
                proof {
                    assert forall|j: nat| !is_free(self@.coords(), spec, major_axis, want, j) by {
                        if j >= i {
                            assert(!is_track(spec, j));
                        }
                    }
                    lemma_no_free(self@.coords(), spec, major_axis, want);
                }
                return None;
            }
            if !self.is_taken(major_axis, other, i) {
                proof {
                    lemma_lowest_free_unique(self@.coords(), spec, major_axis, want, i as nat);
                }
                return Some(i);
            }
            if i == usize::MAX {
                proof {
                    assert forall|j: nat| !is_free(self@.coords(), spec, major_axis, want, j) by {
                        if j > i {
                            crate::grid::track::lemma_entries(spec);
                            assert(!is_track(spec, j));
                        }
                    }
                    lemma_no_free(self@.coords(), spec, major_axis, want);
                }
                return None;
            }
            i = i + 1;
        }
    }

    /// The lowest free track of the major axis for a newcomer that asks for
    /// the given track of the cross axis.
    pub fn find_next_major_spacer(&self, cross_index: Option<usize>) -> (r: Option<usize>)
        ensures
            index_view(r) == next_slot(self@.coords(), self@.major, true, index_view(cross_index)),
    {
        self.find_next_slot(true, cross_index)
    }

    /// The lowest free track of the cross axis for a newcomer on the given
    /// track of the major axis.
    pub fn find_next_cross_spacer(&self, major_index: Option<usize>) -> (r: Option<usize>)
        ensures
            index_view(r) == next_slot(self@.coords(), self@.cross, false, index_view(major_index)),
    {
        self.find_next_slot(false, major_index)
    }

    /// The tracks that a frame asked to sit at column `x` and row `y` would
    /// get: a coordinate that is asked for as it is, one that is left open the
    /// lowest free track of its axis. Nothing where an axis that is left open
    /// has no free track.
    pub fn slot(&self, x: Option<XName>, y: Option<YName>) -> (r: Option<(usize, usize)>)
        ensures
            slot_view(r) == self@.slot_for(x.spec_index(), y.spec_index()),
    {
        let (major_index, cross_index) = match self.expand_dir {
            Some(GridExpandDir::X) => (x.index(), y.index()),
            _ => (y.index(), x.index()),
        };
        let next_major_index = match major_index {
            None => {
                match self.find_next_major_spacer(cross_index) {
                    Some(xi) => xi,
                    None => {
                        return None;
                    },
                }
            },
            Some(n) => n,
        };
        let next_cross_index = match cross_index {
            None => {
                match self.find_next_cross_spacer(Some(next_major_index)) {
                    Some(yi) => yi,
                    None => {
                        return None;
                    },
                }
            },
            Some(n) => n,
        };
        Some((next_major_index, next_cross_index))
    }

    /// Places the frame at column `x` and row `y`. A coordinate that is left
    /// open becomes the lowest free track of its axis; tracks that are asked
    /// for are taken as they are, whoever sits there already. Where an axis
    /// that is left open has no free track the grid is full and stays as it
    /// was.
    pub fn add_frame(&mut self, handle: FrameHandle, x: Option<XName>, y: Option<YName>) -> (r:
        Result<(), LayoutError>)
        ensures
            final(self)@ == old(self)@.placed(handle@, x.spec_index(), y.spec_index()),
            r.is_ok() == old(self)@.slot_for(x.spec_index(), y.spec_index()).is_some(),
            r.is_err() ==> r == Err::<(), LayoutError>(LayoutError::GridFull),
    {
        let (next_major_index, next_cross_index) = match self.slot(x, y) {
            Some(s) => s,
            None => {
                return Err(LayoutError::GridFull);
            },
        };
        self.handles.push(
            HandleSpacerLocation { major: next_major_index, cross: next_cross_index, handle },
        );
        assert(final(self)@.placements =~= old(self)@.placements.push(
            Placement {
                major: next_major_index as nat,
                cross: next_cross_index as nat,
                frame: handle@,
            },
        ));
        Ok(())
    }
}

} // verus!
