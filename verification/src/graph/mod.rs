use vstd::prelude::*;

use crate::node::ty::{abi_compatible, wf, TypeEnum};
use crate::node::{ChannelDirection, ChannelPassBy, ChannelRef, ConnectionPassBy, NodeConfiguration};

pub mod allocator;
pub mod execution;
pub mod precheck;
pub mod run;
pub mod schedule;
pub mod store;

pub use store::Graph;

verus! {

/// The index of a node in the graph.
pub type NodeIndex = u32;

/// Where an edge attaches to a node: the category of the channel and its index within it.
#[derive(Debug, Clone, Copy, PartialEq, Eq, Structural, Hash)]
pub struct EdgeEndpoint {
    pub channel_index: usize,
    pub pass_by: ChannelPassBy,
}

impl EdgeEndpoint {
    pub fn into_undirected_identifier(self, node_index: NodeIndex) -> (r: UndirectedChannelIdentifier)
        ensures
            r == (UndirectedChannelIdentifier {
                node_index,
                channel_index: self.channel_index,
                pass_by: self.pass_by,
            }),
    {
        UndirectedChannelIdentifier { channel_index: self.channel_index, pass_by: self.pass_by, node_index }
    }
}

/// A channel of a node, without its direction.
#[derive(Debug, Clone, Copy, PartialEq, Eq, Structural)]
pub struct UndirectedChannelIdentifier {
    pub node_index: NodeIndex,
    pub channel_index: usize,
    pub pass_by: ChannelPassBy,
}

impl UndirectedChannelIdentifier {
    pub fn from_edge_endpoint(edge_endpoint: EdgeEndpoint, node_index: NodeIndex) -> (r: Self)
        ensures
            r == (UndirectedChannelIdentifier {
                node_index,
                channel_index: edge_endpoint.channel_index,
                pass_by: edge_endpoint.pass_by,
            }),
    {
        edge_endpoint.into_undirected_identifier(node_index)
    }

    pub fn into_directed(self, channel_direction: ChannelDirection) -> (r: ChannelIdentifier)
        ensures
            r == (ChannelIdentifier {
                node_index: self.node_index,
                channel_direction,
                channel_index: self.channel_index,
                pass_by: self.pass_by,
            }),
    {
        ChannelIdentifier {
            node_index: self.node_index,
            channel_index: self.channel_index,
            pass_by: self.pass_by,
            channel_direction,
        }
    }

    /// Forgets the direction of a channel identifier.
    pub open spec fn spec_from(id: ChannelIdentifier) -> Self {
        UndirectedChannelIdentifier {
            node_index: id.node_index,
            channel_index: id.channel_index,
            pass_by: id.pass_by,
        }
    }

    pub fn from(id: ChannelIdentifier) -> (r: Self)
        ensures
            r == Self::spec_from(id),
    {
        UndirectedChannelIdentifier {
            node_index: id.node_index,
            channel_index: id.channel_index,
            pass_by: id.pass_by,
        }
    }

    /// Where the channel attaches to its node.
    pub fn into_edge_endpoint(self) -> (r: EdgeEndpoint)
        ensures
            r == (EdgeEndpoint { channel_index: self.channel_index, pass_by: self.pass_by }),
    {
        EdgeEndpoint { channel_index: self.channel_index, pass_by: self.pass_by }
    }
}

/// A channel of a node, with its direction.
#[derive(Debug, Clone, Copy, PartialEq, Eq, Structural)]
pub struct ChannelIdentifier {
    pub node_index: NodeIndex,
    pub channel_direction: ChannelDirection,
    pub channel_index: usize,
    pub pass_by: ChannelPassBy,
}

impl ChannelIdentifier {
    pub fn from_undirected(undirected: UndirectedChannelIdentifier, channel_direction: ChannelDirection) -> (r:
        Self)
        ensures
            r == (ChannelIdentifier {
                node_index: undirected.node_index,
                channel_direction,
                channel_index: undirected.channel_index,
                pass_by: undirected.pass_by,
            }),
    {
        undirected.into_directed(channel_direction)
    }

    pub open spec fn into_spec_edge_endpoint(self) -> EdgeEndpoint {
        EdgeEndpoint { channel_index: self.channel_index, pass_by: self.pass_by }
    }

    /// Where the channel attaches to its node.
    pub fn into_edge_endpoint(self) -> (r: EdgeEndpoint)
        ensures
            r == self.into_spec_edge_endpoint(),
    {
        EdgeEndpoint { channel_index: self.channel_index, pass_by: self.pass_by }
    }
}

/// The data of an edge: the output channel it starts at and the input channel it ends at.
#[derive(Debug, Clone, Copy, PartialEq, Eq, Structural)]
pub struct EdgeData {
    pub endpoint_from: EdgeEndpoint,
    pub endpoint_to: EdgeEndpoint,
}

impl EdgeData {
    /// The endpoint on the far side of the edge, seen from a channel in `direction`.
    pub fn get_endpoint(&self, direction: ChannelDirection) -> (r: EdgeEndpoint)
        ensures
            r == (match direction {
                ChannelDirection::In => self.endpoint_from,
                ChannelDirection::Out => self.endpoint_to,
            }),
    {
        match direction {
            ChannelDirection::In => self.endpoint_from,
            ChannelDirection::Out => self.endpoint_to,
        }
    }

    /// The channel index on the far side of the edge, seen from a channel in `direction`.
    pub fn get_channel_index(&self, direction: ChannelDirection) -> (r: usize)
        ensures
            r == self.get_endpoint_spec(direction).channel_index,
    {
        self.get_endpoint(direction).channel_index
    }

    pub open spec fn get_endpoint_spec(self, direction: ChannelDirection) -> EdgeEndpoint {
        match direction {
            ChannelDirection::In => self.endpoint_from,
            ChannelDirection::Out => self.endpoint_to,
        }
    }
}

/// A node of the graph: its title and its channels.
#[derive(Debug)]
pub struct NodeData {
    pub title: String,
    pub configuration: NodeConfiguration,
}

/// A connection from an output channel (first) to an input channel (second).
#[derive(Debug, Clone, Copy, PartialEq, Eq)]
pub struct Connection(pub [UndirectedChannelIdentifier; 2]);

impl Connection {
    /// The channel of the connection in `direction`.
    pub open spec fn spec_channel(self, direction: ChannelDirection) -> ChannelIdentifier {
        let c = match direction {
            ChannelDirection::In => self.0@[1],
            ChannelDirection::Out => self.0@[0],
        };
        ChannelIdentifier {
            node_index: c.node_index,
            channel_direction: direction,
            channel_index: c.channel_index,
            pass_by: c.pass_by,
        }
    }

    pub open spec fn spec_from(self) -> ChannelIdentifier {
        self.spec_channel(ChannelDirection::Out)
    }

    /// The connection joins the channels `a` and `b`: the output one first, the input one
    /// second.
    pub open spec fn joins(self, a: ChannelIdentifier, b: ChannelIdentifier) -> bool {
        let (out, inp) = if a.channel_direction == ChannelDirection::Out {
            (a, b)
        } else {
            (b, a)
        };
        &&& self.0@[0] == UndirectedChannelIdentifier::spec_from(out)
        &&& self.0@[1] == UndirectedChannelIdentifier::spec_from(inp)
    }

    /// A connection built from two channels of opposite directions does not depend on their
    /// order, and leads from the output channel to the input channel.
    pub proof fn lemma_joins(self, a: ChannelIdentifier, b: ChannelIdentifier)
        requires
            a.channel_direction != b.channel_direction,
            self.joins(a, b),
        ensures
            self.joins(b, a),
            a.channel_direction == ChannelDirection::Out ==> self.spec_from() == a && self.spec_to()
                == b,
            b.channel_direction == ChannelDirection::Out ==> self.spec_from() == b && self.spec_to()
                == a,
    {
    }

    pub open spec fn spec_to(self) -> ChannelIdentifier {
        self.spec_channel(ChannelDirection::In)
    }

    /// The pass-by check of the connection, given whether its output channel is aliased.
    pub open spec fn pass_ok(self, aliased: bool) -> bool {
        ConnectionPassBy::spec_output(self.spec_from().pass_by, aliased).rank()
            >= ConnectionPassBy::spec_from(self.spec_to().pass_by).rank()
    }

    /// Whether the connection may exist: it joins two different nodes, the output can hand
    /// on its value as the input takes it, and the channel types are compatible.
    pub fn is_valid<'a, F: Fn(ChannelIdentifier) -> bool, G: Fn(ChannelIdentifier) -> ChannelRef<'a>>(
        &self,
        is_aliased: &F,
        get_channel: &G,
    ) -> (r: bool)
        requires
            self.spec_from().node_index != self.spec_to().node_index ==> is_aliased.requires(
                (self.spec_from(),),
            ),
            forall|al: bool|
                #![trigger is_aliased.ensures((self.spec_from(),), al)]
                is_aliased.ensures((self.spec_from(),), al) && self.spec_from().node_index
                    != self.spec_to().node_index && self.pass_ok(al) ==> {
                    &&& get_channel.requires((self.spec_from(),))
                    &&& get_channel.requires((self.spec_to(),))
                    &&& forall|a: ChannelRef<'a>, b: ChannelRef<'a>|
                        #![trigger get_channel.ensures((self.spec_from(),), a), get_channel.ensures((self.spec_to(),), b)]
                        get_channel.ensures((self.spec_from(),), a) && get_channel.ensures(
                            (self.spec_to(),),
                            b,
                        ) ==> wf(*a.ty) && wf(*b.ty) && abi_compatible(*a.ty, *b.ty) is Some
                },
        ensures
            self.spec_from().node_index == self.spec_to().node_index ==> !r,
            self.spec_from().node_index != self.spec_to().node_index ==> exists|al: bool|
                #![trigger is_aliased.ensures((self.spec_from(),), al)]
                {
                    &&& is_aliased.ensures((self.spec_from(),), al)
                    &&& !self.pass_ok(al) ==> !r
                    &&& self.pass_ok(al) ==> exists|a: ChannelRef<'a>, b: ChannelRef<'a>|
                        #![trigger get_channel.ensures((self.spec_from(),), a), get_channel.ensures((self.spec_to(),), b)]
                        get_channel.ensures((self.spec_from(),), a) && get_channel.ensures(
                            (self.spec_to(),),
                            b,
                        ) && r == abi_compatible(*a.ty, *b.ty).unwrap()
                },
    {
        let from = self.from();
        let to = self.to();
        if from.node_index == to.node_index {
            return false;
        }
        let output = ConnectionPassBy::derive_output_connection_pass_by(is_aliased, from);
        let input = ConnectionPassBy::derive_input_connection_pass_by(to);
        let ghost al = choose|al: bool|
            is_aliased.ensures((from,), al) && output == ConnectionPassBy::spec_output(
                from.pass_by,
                al,
            );
        assert(is_aliased.ensures((self.spec_from(),), al));
        if !output.can_be_downgraded_to(input) {
            return false;
        }
        let channel_from = get_channel(from);
        let channel_to = get_channel(to);
        assert(get_channel.ensures((self.spec_from(),), channel_from));
        assert(get_channel.ensures((self.spec_to(),), channel_to));
        TypeEnum::is_abi_compatible(channel_from.ty, channel_to.ty)
    }

    pub fn from_array(array: [UndirectedChannelIdentifier; 2]) -> (r: Self)
        ensures
            r.0@ == array@,
    {
        Connection(array)
    }

    /// The connection between two channels of opposite directions, oriented from the output
    /// to the input; `None` when both have the same direction.
    pub fn try_from_identifiers(ids: [ChannelIdentifier; 2]) -> (r: Option<Connection>)
        ensures
            r is None <==> ids@[0].channel_direction == ids@[1].channel_direction,
            r matches Some(c) ==> c.joins(ids@[0], ids@[1]),
    {
        let a = ids[0];
        let b = ids[1];
        if a.channel_direction == b.channel_direction {
            None
        } else {
            Some(
                Connection(
                    if a.channel_direction == ChannelDirection::Out {
                        [UndirectedChannelIdentifier::from(a), UndirectedChannelIdentifier::from(b)]
                    } else {
                        [UndirectedChannelIdentifier::from(b), UndirectedChannelIdentifier::from(a)]
                    },
                ),
            )
        }
    }

    /// Whether the connection ends at `channel` on the side of the channel's direction.
    pub fn contains_channel(&self, channel: ChannelIdentifier) -> (r: bool)
        ensures
            r == (self.spec_channel(channel.channel_direction) == channel),
    {
        let index: usize = match channel.channel_direction {
            ChannelDirection::In => 1,
            ChannelDirection::Out => 0,
        };
        let current = self.0[index];
        current == UndirectedChannelIdentifier::from(channel)
    }

    pub fn channel(&self, direction: ChannelDirection) -> (r: ChannelIdentifier)
        ensures
            r == self.spec_channel(direction),
    {
        let index: usize = match direction {
            ChannelDirection::In => 1,
            ChannelDirection::Out => 0,
        };
        self.0[index].into_directed(direction)
    }

    /// The input channel of the connection.
    pub fn to(&self) -> (r: ChannelIdentifier)
        ensures
            r == self.spec_to(),
    {
        self.channel(ChannelDirection::In)
    }

    /// The output channel of the connection.
    pub fn from(&self) -> (r: ChannelIdentifier)
        ensures
            r == self.spec_from(),
    {
        self.channel(ChannelDirection::Out)
    }
}

} // verus!
