//! The state of the node editor that is independent of drawing: what is selected and what is
//! highlighted.

use vstd::prelude::*;

use crate::graph::{ChannelIdentifier, Connection};
use crate::node::NodeConfiguration;

verus! {

/// The state of a node element.
#[derive(Default)]
pub struct NodeElementState {
    __marker: (),
}

/// What a floating pane that shows a node needs to know of it.
pub struct FloatingPaneBehaviourData {
    pub node_configuration: NodeConfiguration,
}

#[derive(Default)]
pub struct FloatingPaneBehaviourState {}

/// An element of the graph that is drawn highlighted.
#[derive(Debug, Clone)]
pub enum Highlight {
    Channel(ChannelIdentifier),
    Connection(Connection),
}

/// The element of the graph that a validation error is about.
#[derive(Debug, Clone)]
pub enum GraphValidationErrorAffectedElement {
    Channel(ChannelIdentifier),
    Connection(Connection),
}

impl Highlight {
    /// The same element, as the subject of a validation error.
    pub fn into_graph_validation_error_affected_element(self) -> (r: GraphValidationErrorAffectedElement)
        ensures
            self matches Highlight::Channel(c) ==> r == GraphValidationErrorAffectedElement::Channel(c),
            self matches Highlight::Connection(c) ==> r == GraphValidationErrorAffectedElement::Connection(c),
    {
        match self {
            Highlight::Channel(channel) => GraphValidationErrorAffectedElement::Channel(channel),
            Highlight::Connection(connection) => GraphValidationErrorAffectedElement::Connection(
                connection,
            ),
        }
    }
}

/// The selection and highlight of the node editor.
#[derive(Default)]
pub struct FloatingPanesBehaviourState {
    pub selected_channel: Option<ChannelIdentifier>,
    pub highlight: Option<Highlight>,
}

/// The corner of a widget that an overlay is aligned to.
pub struct WidgetOverlayAlignment {
    pub top: bool,
    pub left: bool,
}

} // verus!
