//! Rectangles and margins, the values that frames are made of.

use crate::units::VUnit;
use vstd::prelude::*;
use vstd::std_specs::convert::IntoSpec;

verus! {

/// What `bytemuck::Zeroable::zeroed` returns for an `i32`: the value whose
/// bits are all zero, which is the number zero.
#[verifier::external_body]
fn zeroed_raw() -> (r: i32)
    ensures
        r == 0,
{
    bytemuck::Zeroable::zeroed()
}

/// The rectangle that a camera shows.
pub type WorldView = BBox;

/// A rectangle: the position of its corner and its extent.
///
/// Nothing is asked of the numbers. A rectangle of negative width or height is
/// kept as it is and shows nothing.
#[derive(Clone, Copy, Debug, PartialEq, Eq, Structural)]
pub struct BBox {
    pub x: VUnit,
    pub y: VUnit,
    pub w: VUnit,
    pub h: VUnit,
}

impl BBox {
    /// The empty rectangle at the origin.
    pub fn zeroed() -> (r: BBox)
        ensures
            r == (BBox { x: VUnit(0), y: VUnit(0), w: VUnit(0), h: VUnit(0) }),
    {
        BBox {
            x: VUnit(zeroed_raw()),
            y: VUnit(zeroed_raw()),
            w: VUnit(zeroed_raw()),
            h: VUnit(zeroed_raw()),
        }
    }
}

/// A rectangle written in any unit that converts to a length.
pub struct Rect<T: Into<VUnit>> {
    pub x: T,
    pub y: T,
    pub w: T,
    pub h: T,
}

impl<T: Into<VUnit>> Into<BBox> for Rect<T> {
    fn into(self) -> (r: BBox) {
        let Rect { x, y, w, h } = self;
        BBox { x: x.into(), y: y.into(), w: w.into(), h: h.into() }
    }
}

impl<T: Into<VUnit>> vstd::std_specs::convert::IntoSpecImpl<BBox> for Rect<T> {
    open spec fn obeys_into_spec() -> bool {
        <T as IntoSpec<VUnit>>::obeys_into_spec()
    }

    /// Each of the four numbers, converted by itself.
    open spec fn into_spec(self) -> BBox {
        BBox {
            x: <T as IntoSpec<VUnit>>::into_spec(self.x),
            y: <T as IntoSpec<VUnit>>::into_spec(self.y),
            w: <T as IntoSpec<VUnit>>::into_spec(self.w),
            h: <T as IntoSpec<VUnit>>::into_spec(self.h),
        }
    }
}

/// The margins kept free inside a frame, one for each side.
#[derive(Clone, Copy, Debug, PartialEq, Eq, Structural)]
pub struct MarginBox {
    pub top: VUnit,
    pub bottom: VUnit,
    pub left: VUnit,
    pub right: VUnit,
}

impl MarginBox {
    /// No margin on any side.
    pub fn zeroed() -> (r: MarginBox)
        ensures
            r == (MarginBox { top: VUnit(0), bottom: VUnit(0), left: VUnit(0), right: VUnit(0) }),
    {
        MarginBox {
            top: VUnit(zeroed_raw()),
            bottom: VUnit(zeroed_raw()),
            left: VUnit(zeroed_raw()),
            right: VUnit(zeroed_raw()),
        }
    }
}

/// Margins written in any unit that converts to a length.
pub struct Borders<T: Into<VUnit>> {
    pub top: T,
    pub bottom: T,
    pub left: T,
    pub right: T,
}

impl<T: Into<VUnit>> Into<MarginBox> for Borders<T> {
    fn into(self) -> (r: MarginBox) {
        let Borders { top, bottom, left, right } = self;
        MarginBox { top: top.into(), bottom: bottom.into(), left: left.into(), right: right.into() }
    }
}

impl<T: Into<VUnit>> vstd::std_specs::convert::IntoSpecImpl<MarginBox> for Borders<T> {
    open spec fn obeys_into_spec() -> bool {
        <T as IntoSpec<VUnit>>::obeys_into_spec()
    }

    /// Each of the four numbers, converted by itself.
    open spec fn into_spec(self) -> MarginBox {
        MarginBox {
            top: <T as IntoSpec<VUnit>>::into_spec(self.top),
            bottom: <T as IntoSpec<VUnit>>::into_spec(self.bottom),
            left: <T as IntoSpec<VUnit>>::into_spec(self.left),
            right: <T as IntoSpec<VUnit>>::into_spec(self.right),
        }
    }
}

} // verus!
