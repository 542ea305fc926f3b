//! A retained-mode layout engine: rectangular frames arranged by grids of
//! tracks, re-solved whenever the rectangle of a parent frame changes.
//!
//! A *frame* is a rectangle with a margin and a colour. Frames live in a
//! table that only grows ([`FrameRenderer`]) and are named by handles. A
//! *grid* ([`grid::GridData`]) divides the rectangle of one frame, its parent,
//! into tracks along two axes and gives every frame placed on it the
//! rectangle where its two tracks cross. The [`Layout`] owns all frames and
//! all grids: a new rectangle for a frame is carried down through the grid
//! that divides it to the frames on that grid, and on through their grids.
//!
//! Lengths are fixed-point numbers ([`VUnit`]) and saturate: no operation of
//! this crate overflows, and none panics.
//!
//! - [`units`]: lengths, and the units in which the size of a track is written
//! - [`handle`]: typed indices
//! - [`manager`]: rectangles and margins
//! - [`frame`]: the record of a frame, and the table of frames
//! - [`grid`]: the tracks of an axis, how a length is divided among them, how
//!   frames are placed, and the table of grids
//! - [`layout`]: the owner of frames and grids, and the requests it serves
//! - [`render_actor`], [`update_queue`], [`component`], [`events`]: the
//!   requests, and the values from which they are made

pub mod component;
pub mod error;
pub mod events;
pub mod frame;
pub mod grid;
pub mod handle;
pub mod layout;
pub mod manager;
pub mod render_actor;
pub mod units;
pub mod update_queue;

pub use component::{ComponentType, HandleCounter, Interaction};
pub use error::LayoutError;
pub use events::{ButtonState, KeyboardEvent, KeyboardKey, MouseButton, MouseEvent};
pub use frame::{FrameData, FrameHandle, FrameRenderer};
pub use grid::{GridBuilder, GridHandle, GridRenderer, SpacerUnit, XName, YName};
pub use handle::{FallableHandleLike, Handle, HandleLike};
pub use layout::{Action, Layout};
pub use manager::{BBox, Borders, MarginBox, Rect};
pub use render_actor::{FrameMessage, GridMessage, UpdateMessage};
pub use units::UserUnits::{Fraction, Pixel, Ratio, Zero};
pub use units::{Ratiot, UserUnits, VUnit};
pub use update_queue::UpdateMsg;
