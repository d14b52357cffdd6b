//! The state behind the node editor's widgets that does not depend on how they are drawn.

pub mod floating_panes;
pub mod margin;
pub mod node;
