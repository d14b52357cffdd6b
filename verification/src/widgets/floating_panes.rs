//! Resizing of floating panes.

use vstd::prelude::*;

verus! {

/// The direction in which one edge of a pane is being dragged, along one axis.
#[derive(Debug, Hash, PartialEq, Eq, Clone, Copy, Structural)]
pub enum PaneResizeDirection {
    Fixed,
    Negative,
    Positive,
}

/// The directions in which a pane is being resized, along both axes.
#[derive(Debug, Hash, Clone, Copy, PartialEq, Eq, Structural)]
pub struct PaneResizeDirections {
    pub x: PaneResizeDirection,
    pub y: PaneResizeDirection,
}

impl PaneResizeDirections {
    /// Resizing along neither axis.
    pub fn none() -> (r: Self)
        ensures
            r.x == PaneResizeDirection::Fixed,
            r.y == PaneResizeDirection::Fixed,
    {
        PaneResizeDirections { x: PaneResizeDirection::Fixed, y: PaneResizeDirection::Fixed }
    }

    /// Whether the pane is resized along neither axis.
    pub fn is_none(&self) -> (r: bool)
        ensures
            r == (self.x == PaneResizeDirection::Fixed && self.y == PaneResizeDirection::Fixed),
    {
        self.x == PaneResizeDirection::Fixed && self.y == PaneResizeDirection::Fixed
    }
}

} // verus!
