//! Describing a grid before it is built: the tracks of its two axes, and
//! names for the fixed ones.

use crate::error::LayoutError;
use crate::frame::renderer::FrameHandle;
use crate::grid::data::{GridData, GridExpandDir, GridView};
use crate::grid::lookup::count_entries;
use crate::grid::track::{fixed_entries, repeat_entries, GridSpacer, SpacerUnit};
use crate::handle::{index_view, FallableHandleLike, Handle, HandleLike};
use crate::units::UserUnits;
use std::marker::PhantomData;
use vstd::prelude::*;

verus! {

/// Marks what belongs to the horizontal axis, whose tracks are columns.
#[derive(Clone, Copy, Default, Debug)]
pub struct Width {}

/// Marks what belongs to the vertical axis, whose tracks are rows.
#[derive(Clone, Copy, Default, Debug)]
pub struct Height {}

/// The name of a column.
pub type XName = Handle<Width>;

/// The name of a row.
pub type YName = Handle<Height>;

/// An optional track name that knows which axis it belongs to.
pub trait GridDir: Copy {
    /// The axis.
    spec fn spec_dir() -> GridExpandDir;

    /// The index of the track that is named, if one is.
    spec fn spec_name(&self) -> Option<nat>;

    fn dir() -> (d: GridExpandDir)
        ensures
            d == Self::spec_dir(),
    ;

    fn new(i: Option<usize>) -> (r: Self)
        ensures
            r.spec_name() == index_view(i),
    ;
}

impl GridDir for Option<XName> {
    open spec fn spec_dir() -> GridExpandDir {
        GridExpandDir::X
    }

    open spec fn spec_name(&self) -> Option<nat> {
        match self {
            Some(h) => Some(h@),
            None => None,
        }
    }

    fn dir() -> (d: GridExpandDir) {
        GridExpandDir::X
    }

    fn new(i: Option<usize>) -> (r: Self) {
        match i {
            Some(i) => Some(Handle::new(i)),
            None => None,
        }
    }
}

impl GridDir for Option<YName> {
    open spec fn spec_dir() -> GridExpandDir {
        GridExpandDir::Y
    }

    open spec fn spec_name(&self) -> Option<nat> {
        match self {
            Some(h) => Some(h@),
            None => None,
        }
    }

    fn dir() -> (d: GridExpandDir) {
        GridExpandDir::Y
    }

    fn new(i: Option<usize>) -> (r: Self) {
        match i {
            Some(i) => Some(Handle::new(i)),
            None => None,
        }
    }
}

/// A grid that is being described: the frame it will divide, and what is
/// known of its columns and rows.
#[derive(Debug)]
pub struct GridBuilder {
    x_spacer: GridSpacer,
    y_spacer: GridSpacer,
    parent: FrameHandle,
}

/// The description of the columns while it is written down.
pub type WidthSpacerBuilder<'a, const EXPANDS: bool> = SpacerBuilder<'a, EXPANDS, Option<XName>>;

/// The description of the rows while it is written down.
pub type HeightSpacerBuilder<'a, const EXPANDS: bool> = SpacerBuilder<'a, EXPANDS, Option<YName>>;

/// The description of one axis while it is written down. `EXPANDS` tells
/// whether a repeating track was declared, which can be done once.
pub struct SpacerBuilder<'b, const EXPANDS: bool, T: GridDir + FallableHandleLike> {
    grid_builder: &'b mut GridBuilder,
    spacer: GridSpacer,
    _dir: PhantomData<T>,
}

impl<'b, const EXPANDS: bool, T: GridDir + FallableHandleLike> SpacerBuilder<'b, EXPANDS, T> {
    #[verifier::type_invariant]
    spec fn inv(self) -> bool {
        repeat_entries(self.spacer@) == if EXPANDS {
            1nat
        } else {
            0nat
        }
    }

    /// The tracks declared so far.
    pub closed spec fn units(self) -> Seq<SpacerUnit> {
        self.spacer@
    }

    /// The grid that is being described.
    pub closed spec fn target(self) -> &'b mut GridBuilder {
        self.grid_builder
    }

    /// Declares one more fixed track.
    pub fn add(self, u: UserUnits) -> (r: Self)
        ensures
            r.units() == self.units().push(SpacerUnit::Unit(u)),
            *r.target() == *self.target(),
            *final(r.target()) == *final(self.target()),
    {
        proof {
            use_type_invariant(&self);
        }
        let SpacerBuilder { grid_builder, spacer, _dir } = self;
        let mut spacer = spacer;
        let ghost before = spacer@;
        spacer.push(SpacerUnit::Unit(u));
        assert(spacer@.drop_last() =~= before);
        SpacerBuilder { grid_builder, spacer, _dir: PhantomData }
    }

    /// Hands the description to the grid, as that of the axis of `T`.
    pub fn build(self)
        ensures
            final(self.target()).axis(T::spec_dir()) == self.units(),
            final(self.target()).axis(other_dir(T::spec_dir())) == old(self.target()).axis(
                other_dir(T::spec_dir()),
            ),
            final(self.target()).parent_spec() == old(self.target()).parent_spec(),
    {
        proof {
            use_type_invariant(&self);
        }
        let SpacerBuilder { grid_builder, spacer, _dir } = self;
        proof {
            use_type_invariant(&*grid_builder);
        }
        match T::dir() {
            GridExpandDir::X => {
                grid_builder.x_spacer = spacer;
            },
            _ => {
                grid_builder.y_spacer = spacer;
            },
        }
    }

    /// Hands the description to the grid and returns names for its fixed
    /// tracks, first to last: as many as there are, and nothing in the places
    /// beyond.
    pub fn assign<const N: usize>(self) -> (names: [T; N])
        ensures
            final(self.target()).axis(T::spec_dir()) == self.units(),
            final(self.target()).axis(other_dir(T::spec_dir())) == old(self.target()).axis(
                other_dir(T::spec_dir()),
            ),
            final(self.target()).parent_spec() == old(self.target()).parent_spec(),
            forall|k: int|
                0 <= k < N ==> (#[trigger] names[k]).spec_name() == name_at(
                    k,
                    fixed_entries(self.units()),
                ),
    {
        let (fixed, _repeats, _lead) = count_entries(&self.spacer);
        let nothing = T::new(None);
        let mut names: [T; N] = [nothing; N];
        let mut i: usize = 0;
        while i < N && i < fixed
            invariant
                i <= N,
                i <= fixed,
                forall|k: int| 0 <= k < i ==> (#[trigger] names[k]).spec_name() == Some(k as nat),
                forall|k: int| i <= k < N ==> (#[trigger] names[k]).spec_name().is_none(),
            decreases N - i,
        {
            names[i] = T::new(Some(i));
            i = i + 1;
        }
        self.build();
        names
    }
}

impl<'b, T: GridDir + FallableHandleLike> SpacerBuilder<'b, false, T> {
    fn new(grid_builder: &'b mut GridBuilder) -> (r: Self)
        ensures
            r.units() == Seq::<SpacerUnit>::empty(),
            *r.target() == *old(grid_builder),
            *final(r.target()) == *final(grid_builder),
    {
        SpacerBuilder { grid_builder: grid_builder, spacer: Vec::new(), _dir: PhantomData }
    }

    /// Declares the repeating track of the axis.
    pub fn add_expanding(self, u: UserUnits) -> (r: SpacerBuilder<'b, true, T>)
        ensures
            r.units() == self.units().push(SpacerUnit::Repeat(u)),
            *r.target() == *self.target(),
            *final(r.target()) == *final(self.target()),
    {
        proof {
            use_type_invariant(&self);
        }
        let SpacerBuilder { grid_builder, spacer, _dir } = self;
        let mut spacer = spacer;
        let ghost before = spacer@;
        spacer.push(SpacerUnit::Repeat(u));
        assert(spacer@.drop_last() =~= before);
        SpacerBuilder { spacer: spacer, grid_builder: grid_builder, _dir: PhantomData }
    }
}

/// The name in place `k` of the names handed out for `fixed` fixed tracks.
pub open spec fn name_at(k: int, fixed: nat) -> Option<nat> {
    if 0 <= k < fixed {
        Some(k as nat)
    } else {
        None
    }
}

/// The axis that is not the given one.
pub open spec fn other_dir(d: GridExpandDir) -> GridExpandDir {
    match d {
        GridExpandDir::X => GridExpandDir::Y,
        GridExpandDir::Y => GridExpandDir::X,
    }
}

impl GridBuilder {
    /// The description of the columns for `X`, of the rows for `Y`.
    pub closed spec fn axis(&self, d: GridExpandDir) -> Seq<SpacerUnit> {
        match d {
            GridExpandDir::X => self.x_spacer@,
            GridExpandDir::Y => self.y_spacer@,
        }
    }

    #[verifier::type_invariant]
    spec fn inv(&self) -> bool {
        repeat_entries(self.x_spacer@) <= 1 && repeat_entries(self.y_spacer@) <= 1
    }

    /// The index of the frame that the grid will divide.
    pub closed spec fn parent_spec(&self) -> nat {
        self.parent@
    }

    /// The description of a grid on the given frame, with no tracks yet.
    pub fn new(parent: FrameHandle) -> (b: GridBuilder)
        ensures
            b.parent_spec() == parent@,
            b.axis(GridExpandDir::X) == Seq::<SpacerUnit>::empty(),
            b.axis(GridExpandDir::Y) == Seq::<SpacerUnit>::empty(),
    {
        GridBuilder { x_spacer: Vec::new(), y_spacer: Vec::new(), parent }
    }

    /// The frame that the grid will divide.
    pub fn parent(&self) -> (h: FrameHandle)
        ensures
            h@ == self.parent_spec(),
    {
        self.parent
    }

    /// Starts the description of the columns anew.
    pub fn widths(&mut self) -> (r: WidthSpacerBuilder<'_, false>)
        ensures
            r.units() == Seq::<SpacerUnit>::empty(),
            *r.target() == *old(self),
            *final(r.target()) == *final(self),
    {
        WidthSpacerBuilder::new(self)
    }

    /// Starts the description of the rows anew.
    pub fn heights(&mut self) -> (r: HeightSpacerBuilder<'_, false>)
        ensures
            r.units() == Seq::<SpacerUnit>::empty(),
            *r.target() == *old(self),
            *final(r.target()) == *final(self),
    {
        HeightSpacerBuilder::new(self)
    }

    /// Whether both axes declare a repeating track.
    pub open spec fn expands_twice(&self) -> bool {
        repeat_entries(self.axis(GridExpandDir::X)) > 0 && repeat_entries(
            self.axis(GridExpandDir::Y),
        ) > 0
    }

    /// The axis that declares the repeating track, if one does.
    pub open spec fn expands(&self) -> Option<GridExpandDir> {
        if repeat_entries(self.axis(GridExpandDir::X)) > 0 {
            Some(GridExpandDir::X)
        } else if repeat_entries(self.axis(GridExpandDir::Y)) > 0 {
            Some(GridExpandDir::Y)
        } else {
            None
        }
    }

    /// The grid as it stands when it is built: without frames, its major axis
    /// the one that repeats, or the vertical one where none does.
    pub open spec fn built(&self) -> GridView {
        let along_x = self.expands() == Some(GridExpandDir::X);
        GridView {
            major: self.axis(
                if along_x {
                    GridExpandDir::X
                } else {
                    GridExpandDir::Y
                },
            ),
            cross: self.axis(
                if along_x {
                    GridExpandDir::Y
                } else {
                    GridExpandDir::X
                },
            ),
            expand: self.expands(),
            parent: self.parent_spec(),
            placements: Seq::empty(),
        }
    }

    /// Builds the grid. A grid can grow along one axis only: where both axes
    /// declare a repeating track there is no grid, and this is said at once,
    /// before any frame is placed.
    pub fn build(self) -> (r: Result<GridData, LayoutError>)
        ensures
            r.is_err() == self.expands_twice(),
            r matches Err(e) ==> e == LayoutError::MultipleExpandingAxes,
            r matches Ok(g) ==> g@ == self.built() && g@.single_expansion(),
    {
        proof {
            use_type_invariant(&self);
        }
        let (_x_fixed, x_repeats, _x_lead) = count_entries(&self.x_spacer);
        let (_y_fixed, y_repeats, _y_lead) = count_entries(&self.y_spacer);
        if x_repeats && y_repeats {
            return Err(LayoutError::MultipleExpandingAxes);
        }
        let expands = if x_repeats {
            Some(GridExpandDir::X)
        } else if y_repeats {
            Some(GridExpandDir::Y)
        } else {
            None
        };
        let GridBuilder { x_spacer, y_spacer, parent } = self;
        Ok(GridData::new(parent, x_spacer, y_spacer, expands))
    }
}

} // verus!
