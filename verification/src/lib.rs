//! Verified core of a graph-based video compositor: channel types and their layout,
//! node configurations, the node graph with its validation and scheduling, and the
//! allocator that manages dynamically allocated channel values.

pub mod node;

pub mod graph;

pub mod style;

pub mod util;

pub mod widgets;
