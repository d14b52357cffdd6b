//! Spacing around an element.

use vstd::prelude::*;

verus! {

/// The space left free on each side of an element.
#[derive(Default, PartialEq, Eq, Clone, Debug)]
pub struct Spacing {
    pub right: u16,
    pub up: u16,
    pub left: u16,
    pub down: u16,
}

impl Spacing {
    /// `horizontal` on the left and right, `vertical` above and below.
    pub fn from_axes(horizontal: u16, vertical: u16) -> (r: Self)
        ensures
            r.right == horizontal,
            r.left == horizontal,
            r.up == vertical,
            r.down == vertical,
    {
        Spacing { right: horizontal, up: vertical, left: horizontal, down: vertical }
    }

    /// The same space on every side.
    pub fn uniform(spacing: u16) -> (r: Self)
        ensures
            r.right == spacing,
            r.left == spacing,
            r.up == spacing,
            r.down == spacing,
    {
        Spacing { right: spacing, up: spacing, left: spacing, down: spacing }
    }
}

} // verus!
