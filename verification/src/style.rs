//! The shapes that a marker can take.

use vstd::prelude::*;

verus! {

/// The shape of the marker, with its measures in the unit of the layout.
#[derive(Debug, Clone, Copy, PartialEq, Eq, Structural)]
pub enum MarkerShape {
    /// A square with sides of `size`, inside a border of `border_width` on
    /// every side.
    Square { size: u32, border_width: u32 },
    /// A disc of `radius`, inside a ring of `border_width`.
    Circle { radius: u32, border_width: u32 },
}

} // verus!
