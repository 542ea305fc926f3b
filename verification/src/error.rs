//! What can go wrong while a layout is built or changed.

use vstd::prelude::*;

verus! {

/// The ways in which a request to the layout can be turned down.
#[derive(Clone, Copy, Debug, PartialEq, Eq, Structural)]
pub enum LayoutError {
    /// Every track that could take the frame is taken, and none repeats.
    GridFull,
    /// The handle was not issued by the table it is used with, or names a
    /// frame that cannot play the part asked of it.
    InvalidHandle,
    /// Both axes of one grid declare a repeating track.
    MultipleExpandingAxes,
}

impl LayoutError {
    /// What `describe` says of each error.
    pub open spec fn text(self) -> Seq<char> {
        match self {
            LayoutError::GridFull => "no free track is left in the grid"@,
            LayoutError::InvalidHandle => "the handle does not belong to this layout"@,
            LayoutError::MultipleExpandingAxes => "grid's can only have one expanding direction"@,
        }
    }

    /// One line for a log.
    pub fn describe(&self) -> (s: &'static str)
        ensures
            s@ == self.text(),
    {
        match self {
            LayoutError::GridFull => "no free track is left in the grid",
            LayoutError::InvalidHandle => "the handle does not belong to this layout",
            LayoutError::MultipleExpandingAxes => "grid's can only have one expanding direction",
        }
    }
}

} // verus!
