use vstd::prelude::*;

use crate::graph::{ChannelIdentifier, Connection, EdgeEndpoint, NodeIndex};
use ty::{value_size, wf, TypeEnum};

pub mod behaviour;
pub mod ty;
pub mod window;

verus! {

/// The direction of a channel, seen from the node that owns it.
#[derive(Debug, Clone, Copy, PartialEq, Eq, Structural, Hash)]
pub enum ChannelDirection {
    In,
    Out,
}

impl ChannelDirection {
    pub open spec fn spec_inverse(self) -> ChannelDirection {
        match self {
            ChannelDirection::In => ChannelDirection::Out,
            ChannelDirection::Out => ChannelDirection::In,
        }
    }

    /// Inverting a direction gives the other direction, and inverting twice gives the
    /// direction back.
    pub proof fn lemma_inverse(self)
        ensures
            self.spec_inverse() != self,
            self.spec_inverse().spec_inverse() == self,
    {
    }

    pub fn inverse(self) -> (r: Self)
        ensures
            r == self.spec_inverse(),
    {
        match self {
            ChannelDirection::In => ChannelDirection::Out,
            ChannelDirection::Out => ChannelDirection::In,
        }
    }
}

/// How a value travels along a connection; `Immutable` is the weaker of the two.
#[derive(Debug, Clone, Copy, PartialEq, Eq, Structural, Hash)]
pub enum ConnectionPassBy {
    Immutable,
    Mutable,
}

/// How a channel takes or gives its value, in the order in which a node lists its channels.
#[derive(Debug, Clone, Copy, PartialEq, Eq, Structural, Hash)]
pub enum ChannelPassBy {
    SharedReference,
    MutableReference,
    Value,
}

impl ConnectionPassBy {
    /// Position in the order `Immutable < Mutable`.
    pub open spec fn rank(self) -> nat {
        match self {
            ConnectionPassBy::Immutable => 0,
            ConnectionPassBy::Mutable => 1,
        }
    }

    /// The pass-by of a connection that starts at a channel passed by `pass_by`.
    pub open spec fn spec_from(pass_by: ChannelPassBy) -> ConnectionPassBy {
        match pass_by {
            ChannelPassBy::SharedReference => ConnectionPassBy::Immutable,
            ChannelPassBy::MutableReference | ChannelPassBy::Value => ConnectionPassBy::Mutable,
        }
    }

    /// The weaker of two pass-bys.
    pub open spec fn spec_min(a: ConnectionPassBy, b: ConnectionPassBy) -> ConnectionPassBy {
        if a.rank() <= b.rank() {
            a
        } else {
            b
        }
    }

    /// What an output channel can offer: its own pass-by, weakened to `Immutable` when the
    /// channel feeds more than one connection.
    pub open spec fn spec_output(pass_by: ChannelPassBy, aliased: bool) -> ConnectionPassBy {
        Self::spec_min(
            Self::spec_from(pass_by),
            if aliased {
                ConnectionPassBy::Immutable
            } else {
                ConnectionPassBy::Mutable
            },
        )
    }

    /// Downgrading is a preorder: every pass-by can be downgraded to itself, and downgrades
    /// chain.
    pub proof fn lemma_downgrade_preorder(a: ConnectionPassBy, b: ConnectionPassBy, c: ConnectionPassBy)
        ensures
            a.rank() >= a.rank(),
            a.rank() >= b.rank() && b.rank() >= c.rank() ==> a.rank() >= c.rank(),
            a.rank() >= b.rank() && b.rank() >= a.rank() ==> a == b,
    {
    }

    /// Only a shared reference is passed immutably: a mutable reference and a value can be
    /// changed by the node that takes them, so their connections are mutable.
    pub proof fn lemma_only_shared_is_immutable(pass_by: ChannelPassBy)
        ensures
            Self::spec_from(pass_by) == ConnectionPassBy::Immutable <==> pass_by == ChannelPassBy::SharedReference,
            Self::spec_from(pass_by) == ConnectionPassBy::Mutable <==> pass_by != ChannelPassBy::SharedReference,
    {
    }

    /// An output that feeds more than one connection only offers an immutable value; one
    /// that feeds a single connection offers what its channel passes.
    pub proof fn lemma_output_weakened(pass_by: ChannelPassBy, aliased: bool)
        ensures
            aliased ==> Self::spec_output(pass_by, aliased) == ConnectionPassBy::Immutable,
            !aliased ==> Self::spec_output(pass_by, aliased) == Self::spec_from(pass_by),
    {
    }

    fn min(a: ConnectionPassBy, b: ConnectionPassBy) -> (r: ConnectionPassBy)
        ensures
            r == Self::spec_min(a, b),
    {
        match (a, b) {
            (ConnectionPassBy::Mutable, ConnectionPassBy::Immutable) => b,
            _ => a,
        }
    }

    /// Whether a value passed by `self` may be handed on as `to`.
    pub fn can_be_downgraded_to(self, to: Self) -> (r: bool)
        ensures
            r == (self.rank() >= to.rank()),
    {
        match (self, to) {
            (ConnectionPassBy::Immutable, ConnectionPassBy::Mutable) => false,
            _ => true,
        }
    }

    pub fn from(channel: ChannelPassBy) -> (r: Self)
        ensures
            r == Self::spec_from(channel),
    {
        match channel {
            ChannelPassBy::SharedReference => ConnectionPassBy::Immutable,
            ChannelPassBy::MutableReference | ChannelPassBy::Value => ConnectionPassBy::Mutable,
        }
    }

    /// The pass-by a connection can have, given the aliasing of its source channel.
    pub fn derive_connection_pass_by<F: Fn(ChannelIdentifier) -> bool>(
        is_aliased: &F,
        connection: &Connection,
    ) -> (r: ConnectionPassBy)
        requires
            is_aliased.requires((connection.spec_from(),)),
        ensures
            exists|aliased: bool|
                is_aliased.ensures((connection.spec_from(),), aliased) && r == Self::spec_min(
                    Self::spec_output(connection.spec_from().pass_by, aliased),
                    Self::spec_from(connection.spec_to().pass_by),
                ),
    {
        let output = Self::derive_output_connection_pass_by(is_aliased, connection.from());
        let input = Self::derive_input_connection_pass_by(connection.to());
        Self::min(output, input)
    }

    /// The pass-by of a connection that is being drawn from `channel`.
    pub fn derive_pending_connection_pass_by<F: Fn(ChannelIdentifier) -> bool>(
        is_aliased: &F,
        channel: ChannelIdentifier,
    ) -> (r: ConnectionPassBy)
        requires
            channel.channel_direction == ChannelDirection::Out ==> is_aliased.requires((channel,)),
        ensures
            channel.channel_direction == ChannelDirection::In ==> r == Self::spec_from(
                channel.pass_by,
            ),
            channel.channel_direction == ChannelDirection::Out ==> exists|aliased: bool|
                is_aliased.ensures((channel,), aliased) && r == Self::spec_output(
                    channel.pass_by,
                    aliased,
                ),
    {
        match channel.channel_direction {
            ChannelDirection::Out => Self::derive_output_connection_pass_by(is_aliased, channel),
            ChannelDirection::In => Self::derive_input_connection_pass_by(channel),
        }
    }

    /// What an input channel accepts.
    pub fn derive_input_connection_pass_by(to: ChannelIdentifier) -> (r: ConnectionPassBy)
        ensures
            r == Self::spec_from(to.pass_by),
    {
        ConnectionPassBy::from(to.pass_by)
    }

    /// What an output channel can offer, given whether it is aliased.
    pub fn derive_output_connection_pass_by<F: Fn(ChannelIdentifier) -> bool>(
        is_aliased: &F,
        from: ChannelIdentifier,
    ) -> (r: ConnectionPassBy)
        requires
            is_aliased.requires((from,)),
        ensures
            exists|aliased: bool|
                is_aliased.ensures((from,), aliased) && r == Self::spec_output(
                    from.pass_by,
                    aliased,
                ),
    {
        let aliased = is_aliased(from);
        let r = Self::min(
            ConnectionPassBy::from(from.pass_by),
            if aliased {
                ConnectionPassBy::Immutable
            } else {
                ConnectionPassBy::Mutable
            },
        );
        assert(is_aliased.ensures((from,), aliased) && r == Self::spec_output(from.pass_by, aliased));
        r
    }
}

impl ChannelPassBy {
    /// The position of the category in the order `SharedReference`, `MutableReference`, `Value`.
    pub open spec fn spec_index(self) -> nat {
        match self {
            ChannelPassBy::SharedReference => 0,
            ChannelPassBy::MutableReference => 1,
            ChannelPassBy::Value => 2,
        }
    }

    pub fn get_category_index(self) -> (r: usize)
        ensures
            r == self.spec_index(),
    {
        match self {
            ChannelPassBy::SharedReference => 0,
            ChannelPassBy::MutableReference => 1,
            ChannelPassBy::Value => 2,
        }
    }
}

/// A channel of a node: a named input or output of a given type.
#[derive(Debug, Hash, PartialEq, Eq)]
pub struct Channel {
    pub title: String,
    pub description: Option<String>,
    pub ty: TypeEnum,
}

impl Channel {
    pub fn new(title: String, ty: TypeEnum) -> (r: Self)
        ensures
            r.title@ == title@,
            r.description is None,
            r.ty == ty,
    {
        Channel { title, description: None, ty }
    }

    pub fn with_description(self, description: String) -> (r: Self)
        ensures
            r.title@ == self.title@,
            r.description matches Some(d) && d@ == description@,
            r.ty == self.ty,
    {
        let Channel { title, ty, .. } = self;
        Channel { title, description: Some(description), ty }
    }

    /// Two channels with the same title, description and type.
    pub open spec fn same_as(self, other: Channel) -> bool {
        &&& self.title@ == other.title@
        &&& self.ty == other.ty
        &&& (self.description is Some <==> other.description is Some)
        &&& (self.description matches Some(d) ==> d@ == other.description->0@)
    }

    pub fn clone_channel(&self) -> (r: Self)
        ensures
            r.same_as(*self),
    {
        let description = match &self.description {
            Some(d) => Some(d.clone()),
            None => None,
        };
        Channel { title: self.title.clone(), description, ty: self.ty.clone() }
    }
}

/// A borrowed view of a channel, together with where it sits on its node.
pub struct ChannelRef<'a> {
    pub title: &'a str,
    pub description: Option<&'a str>,
    pub ty: &'a TypeEnum,
    pub edge_endpoint: EdgeEndpoint,
    pub direction: ChannelDirection,
}

/// `r` shows the channel `c` at `edge_endpoint` in `direction`.
pub open spec fn shows(
    r: ChannelRef,
    c: Channel,
    edge_endpoint: EdgeEndpoint,
    direction: ChannelDirection,
) -> bool {
    &&& r.title@ == c.title@
    &&& (r.description is Some <==> c.description is Some)
    &&& (r.description matches Some(d) ==> d@ == c.description->0@)
    &&& *r.ty == c.ty
    &&& r.edge_endpoint == edge_endpoint
    &&& r.direction == direction
}

impl<'a> ChannelRef<'a> {
    pub fn from(other: &'a Channel, edge_endpoint: EdgeEndpoint, direction: ChannelDirection) -> (r:
        Self)
        ensures
            shows(r, *other, edge_endpoint, direction),
    {
        let description = match &other.description {
            Some(d) => Some(d.as_str()),
            None => None,
        };
        ChannelRef { title: other.title.as_str(), description, ty: &other.ty, edge_endpoint, direction }
    }

    /// The identifier of the channel on the node `node_index`.
    pub fn into_identifier(&self, node_index: NodeIndex) -> (r: ChannelIdentifier)
        ensures
            r == (ChannelIdentifier {
                node_index,
                channel_direction: self.direction,
                channel_index: self.edge_endpoint.channel_index,
                pass_by: self.edge_endpoint.pass_by,
            }),
    {
        self.edge_endpoint.into_undirected_identifier(node_index).into_directed(self.direction)
    }
}

/// A mutable view of a channel, together with where it sits on its node.
pub struct ChannelRefMut<'a> {
    pub title: &'a mut String,
    pub description: Option<&'a mut String>,
    pub ty: &'a mut TypeEnum,
    pub edge_endpoint: EdgeEndpoint,
    pub direction: ChannelDirection,
}

impl<'a> ChannelRefMut<'a> {
    fn from(other: &'a mut Channel, edge_endpoint: EdgeEndpoint, direction: ChannelDirection) -> (r:
        Self)
        ensures
            r.title@ == old(other).title@,
            r.description is Some <==> old(other).description is Some,
            r.description matches Some(d) ==> d@ == old(other).description->0@,
            *r.ty == old(other).ty,
            r.edge_endpoint == edge_endpoint,
            r.direction == direction,
            *final(other) == (Channel {
                title: *final(r.title),
                description: match r.description {
                    Some(d) => Some(*final(d)),
                    None => None,
                },
                ty: *final(r.ty),
            }),
    {
        let Channel { title, description, ty } = other;
        let description = match description {
            Some(d) => Some(d),
            None => None,
        };
        ChannelRefMut { title, description, ty, edge_endpoint, direction }
    }

    /// The identifier of the channel on the node `node_index`.
    pub fn into_identifier(&self, node_index: NodeIndex) -> (r: ChannelIdentifier)
        ensures
            r == (ChannelIdentifier {
                node_index,
                channel_direction: self.direction,
                channel_index: self.edge_endpoint.channel_index,
                pass_by: self.edge_endpoint.pass_by,
            }),
    {
        self.edge_endpoint.into_undirected_identifier(node_index).into_directed(self.direction)
    }
}

/// Two lists of channels that agree one for one.
pub open spec fn same_channels(a: Seq<Channel>, b: Seq<Channel>) -> bool {
    a.len() == b.len() && forall|i: int| 0 <= i < a.len() ==> (#[trigger] a[i]).same_as(b[i])
}

fn clone_channels(channels: &Vec<Channel>) -> (r: Vec<Channel>)
    ensures
        same_channels(r@, channels@),
{
    let mut r: Vec<Channel> = Vec::new();
    let mut i: usize = 0;
    while i < channels.len()
        invariant
            i <= channels@.len(),
            r@.len() == i,
            forall|k: int| 0 <= k < i ==> (#[trigger] r@[k]).same_as(channels@[k]),
        decreases channels@.len() - i,
    {
        r.push(channels[i].clone_channel());
        i = i + 1;
    }
    r
}

/// The channels of a node, grouped by how they pass their values.
#[derive(Debug)]
pub struct NodeConfiguration {
    pub channels_by_shared_reference: Vec<Channel>,
    pub channels_by_mutable_reference: Vec<Channel>,
    pub input_channels_by_value: Vec<Channel>,
    pub output_channels_by_value: Vec<Channel>,
}

impl NodeConfiguration {
    /// The channels of one category, as seen in `direction`; references are both inputs and
    /// outputs, values are not.
    pub open spec fn category(self, pass_by: ChannelPassBy, direction: ChannelDirection) -> Seq<
        Channel,
    > {
        match pass_by {
            ChannelPassBy::SharedReference => self.channels_by_shared_reference@,
            ChannelPassBy::MutableReference => self.channels_by_mutable_reference@,
            ChannelPassBy::Value => match direction {
                ChannelDirection::In => self.input_channels_by_value@,
                ChannelDirection::Out => self.output_channels_by_value@,
            },
        }
    }

    /// `self` is `old` with the channel at `endpoint` in `direction` replaced by `channel`.
    pub open spec fn replaces(
        self,
        old: NodeConfiguration,
        direction: ChannelDirection,
        endpoint: EdgeEndpoint,
        channel: Channel,
    ) -> bool {
        let i = endpoint.channel_index as int;
        let pass_by = endpoint.pass_by;
        &&& self.channels_by_shared_reference@ == if pass_by == ChannelPassBy::SharedReference {
            old.channels_by_shared_reference@.update(i, channel)
        } else {
            old.channels_by_shared_reference@
        }
        &&& self.channels_by_mutable_reference@ == if pass_by == ChannelPassBy::MutableReference {
            old.channels_by_mutable_reference@.update(i, channel)
        } else {
            old.channels_by_mutable_reference@
        }
        &&& self.input_channels_by_value@ == if pass_by == ChannelPassBy::Value && direction
            == ChannelDirection::In {
            old.input_channels_by_value@.update(i, channel)
        } else {
            old.input_channels_by_value@
        }
        &&& self.output_channels_by_value@ == if pass_by == ChannelPassBy::Value && direction
            == ChannelDirection::Out {
            old.output_channels_by_value@.update(i, channel)
        } else {
            old.output_channels_by_value@
        }
    }

    /// Whether the node has a channel at `endpoint` in `direction`.
    pub open spec fn has_channel(self, direction: ChannelDirection, endpoint: EdgeEndpoint) -> bool {
        endpoint.channel_index < self.category(endpoint.pass_by, direction).len()
    }

    /// The channel at `endpoint` in `direction`.
    pub open spec fn spec_channel(self, direction: ChannelDirection, endpoint: EdgeEndpoint) -> Channel {
        self.category(endpoint.pass_by, direction)[endpoint.channel_index as int]
    }

    /// The index of a channel when all channels are counted in category order.
    pub open spec fn global_index(self, endpoint: EdgeEndpoint) -> int {
        match endpoint.pass_by {
            ChannelPassBy::SharedReference => endpoint.channel_index as int,
            ChannelPassBy::MutableReference => endpoint.channel_index
                + self.channels_by_shared_reference@.len(),
            ChannelPassBy::Value => endpoint.channel_index + self.channels_by_shared_reference@.len()
                + self.channels_by_mutable_reference@.len(),
        }
    }

    /// The number of channels in `direction`.
    pub open spec fn channel_count(self, direction: ChannelDirection) -> nat {
        self.channels_by_shared_reference@.len() + self.channels_by_mutable_reference@.len()
            + self.category(ChannelPassBy::Value, direction).len()
    }

    /// The endpoint of the `i`-th channel in `direction`, in the order of `channels`.
    pub open spec fn endpoint_at(self, direction: ChannelDirection, i: int) -> EdgeEndpoint {
        let s = self.channels_by_shared_reference@.len() as int;
        let m = self.channels_by_mutable_reference@.len() as int;
        if i < s {
            EdgeEndpoint { channel_index: i as usize, pass_by: ChannelPassBy::SharedReference }
        } else if i < s + m {
            EdgeEndpoint {
                channel_index: (i - s) as usize,
                pass_by: ChannelPassBy::MutableReference,
            }
        } else {
            EdgeEndpoint { channel_index: (i - s - m) as usize, pass_by: ChannelPassBy::Value }
        }
    }

    /// `r` shows the `i`-th channel in `direction`.
    pub open spec fn shows_at(self, r: ChannelRef, direction: ChannelDirection, i: int) -> bool {
        let e = self.endpoint_at(direction, i);
        &&& self.has_channel(direction, e)
        &&& shows(r, self.spec_channel(direction, e), e, direction)
    }

    /// The channel at `endpoint` is the `global_index(endpoint)`-th channel in `direction`.
    pub proof fn lemma_global_index(self, direction: ChannelDirection, endpoint: EdgeEndpoint)
        requires
            self.has_channel(direction, endpoint),
        ensures
            0 <= self.global_index(endpoint) < self.channel_count(direction),
            self.endpoint_at(direction, self.global_index(endpoint)) == endpoint,
    {
        let e = self.endpoint_at(direction, self.global_index(endpoint));
        match endpoint.pass_by {
            ChannelPassBy::SharedReference => {
                assert(e.channel_index == endpoint.channel_index);
            },
            ChannelPassBy::MutableReference => {
                assert(e.channel_index == endpoint.channel_index);
            },
            ChannelPassBy::Value => {
                assert(e.channel_index == endpoint.channel_index);
            },
        }
    }

    /// Different channels have different global indices.
    pub proof fn lemma_global_index_injective(
        self,
        direction: ChannelDirection,
        a: EdgeEndpoint,
        b: EdgeEndpoint,
    )
        requires
            self.has_channel(direction, a),
            self.has_channel(direction, b),
            self.global_index(a) == self.global_index(b),
        ensures
            a == b,
    {
        self.lemma_global_index(direction, a);
        self.lemma_global_index(direction, b);
    }

    /// The `i`-th channel in `direction` exists, and `i` is its global index.
    pub proof fn lemma_endpoint_at(self, direction: ChannelDirection, i: int)
        requires
            0 <= i < self.channel_count(direction),
            i <= usize::MAX,
        ensures
            self.has_channel(direction, self.endpoint_at(direction, i)),
            self.global_index(self.endpoint_at(direction, i)) == i,
    {
    }

    /// All channel types are well-formed.
    pub open spec fn wf(self) -> bool {
        &&& forall|i: int|
            0 <= i < self.channels_by_shared_reference@.len() ==> wf(
                #[trigger] self.channels_by_shared_reference@[i].ty,
            )
        &&& forall|i: int|
            0 <= i < self.channels_by_mutable_reference@.len() ==> wf(
                #[trigger] self.channels_by_mutable_reference@[i].ty,
            )
        &&& forall|i: int|
            0 <= i < self.input_channels_by_value@.len() ==> wf(
                #[trigger] self.input_channels_by_value@[i].ty,
            )
        &&& forall|i: int|
            0 <= i < self.output_channels_by_value@.len() ==> wf(
                #[trigger] self.output_channels_by_value@[i].ty,
            )
    }

    /// Two configurations whose channels agree one for one.
    pub open spec fn same_as(self, other: NodeConfiguration) -> bool {
        &&& same_channels(self.channels_by_shared_reference@, other.channels_by_shared_reference@)
        &&& same_channels(self.channels_by_mutable_reference@, other.channels_by_mutable_reference@)
        &&& same_channels(self.input_channels_by_value@, other.input_channels_by_value@)
        &&& same_channels(self.output_channels_by_value@, other.output_channels_by_value@)
    }

    /// A copy of the configuration.
    pub fn clone_configuration(&self) -> (r: Self)
        ensures
            r.same_as(*self),
    {
        NodeConfiguration {
            channels_by_shared_reference: clone_channels(&self.channels_by_shared_reference),
            channels_by_mutable_reference: clone_channels(&self.channels_by_mutable_reference),
            input_channels_by_value: clone_channels(&self.input_channels_by_value),
            output_channels_by_value: clone_channels(&self.output_channels_by_value),
        }
    }

    pub fn new() -> (r: Self)
        ensures
            r.channels_by_shared_reference@.len() == 0,
            r.channels_by_mutable_reference@.len() == 0,
            r.input_channels_by_value@.len() == 0,
            r.output_channels_by_value@.len() == 0,
    {
        NodeConfiguration {
            channels_by_shared_reference: Vec::new(),
            channels_by_mutable_reference: Vec::new(),
            input_channels_by_value: Vec::new(),
            output_channels_by_value: Vec::new(),
        }
    }

    pub fn with_borrow(self, channel: Channel) -> (r: Self)
        ensures
            r.channels_by_shared_reference@ == self.channels_by_shared_reference@.push(channel),
            r.channels_by_mutable_reference@ == self.channels_by_mutable_reference@,
            r.input_channels_by_value@ == self.input_channels_by_value@,
            r.output_channels_by_value@ == self.output_channels_by_value@,
    {
        let mut r = self;
        r.channels_by_shared_reference.push(channel);
        r
    }

    pub fn with_borrow_mut(self, channel: Channel) -> (r: Self)
        ensures
            r.channels_by_shared_reference@ == self.channels_by_shared_reference@,
            r.channels_by_mutable_reference@ == self.channels_by_mutable_reference@.push(channel),
            r.input_channels_by_value@ == self.input_channels_by_value@,
            r.output_channels_by_value@ == self.output_channels_by_value@,
    {
        let mut r = self;
        r.channels_by_mutable_reference.push(channel);
        r
    }

    pub fn with_input_value(self, channel: Channel) -> (r: Self)
        ensures
            r.channels_by_shared_reference@ == self.channels_by_shared_reference@,
            r.channels_by_mutable_reference@ == self.channels_by_mutable_reference@,
            r.input_channels_by_value@ == self.input_channels_by_value@.push(channel),
            r.output_channels_by_value@ == self.output_channels_by_value@,
    {
        let mut r = self;
        r.input_channels_by_value.push(channel);
        r
    }

    pub fn with_output_value(self, channel: Channel) -> (r: Self)
        ensures
            r.channels_by_shared_reference@ == self.channels_by_shared_reference@,
            r.channels_by_mutable_reference@ == self.channels_by_mutable_reference@,
            r.input_channels_by_value@ == self.input_channels_by_value@,
            r.output_channels_by_value@ == self.output_channels_by_value@.push(channel),
    {
        let mut r = self;
        r.output_channels_by_value.push(channel);
        r
    }

    /// Whether the node has a channel at `endpoint` in `direction`.
    pub fn contains_channel(&self, direction: ChannelDirection, endpoint: EdgeEndpoint) -> (r: bool)
        ensures
            r == self.has_channel(direction, endpoint),
    {
        let len = match endpoint.pass_by {
            ChannelPassBy::SharedReference => self.channels_by_shared_reference.len(),
            ChannelPassBy::MutableReference => self.channels_by_mutable_reference.len(),
            ChannelPassBy::Value => match direction {
                ChannelDirection::In => self.input_channels_by_value.len(),
                ChannelDirection::Out => self.output_channels_by_value.len(),
            },
        };
        endpoint.channel_index < len
    }

    /// The index of the channel at `endpoint` when all channels are counted in category order.
    pub fn get_global_channel_index(&self, endpoint: EdgeEndpoint) -> (r: usize)
        requires
            self.global_index(endpoint) <= usize::MAX,
        ensures
            r == self.global_index(endpoint),
    {
        let mut index = endpoint.channel_index;

        match endpoint.pass_by {
            ChannelPassBy::SharedReference => {},
            ChannelPassBy::MutableReference => {
                index = index + self.channels_by_shared_reference.len();
            },
            ChannelPassBy::Value => {
                index = index + self.channels_by_shared_reference.len();
                index = index + self.channels_by_mutable_reference.len();
            },
        }
        index
    }

    /// All channels in `direction`: shared references, then mutable references, then values.
    pub fn channels(&self, direction: ChannelDirection) -> (r: Vec<ChannelRef<'_>>)
        ensures
            r@.len() == self.channel_count(direction),
            forall|i: int|
                0 <= i < r@.len() ==> self.shows_at(#[trigger] r@[i], direction, i),
    {
        let mut r: Vec<ChannelRef<'_>> = Vec::new();
        let s = self.channels_by_shared_reference.len();
        let m = self.channels_by_mutable_reference.len();
        let values = match direction {
            ChannelDirection::In => &self.input_channels_by_value,
            ChannelDirection::Out => &self.output_channels_by_value,
        };
        assert(values@ == self.category(ChannelPassBy::Value, direction));
        let mut i: usize = 0;
        while i < s
            invariant
                i <= s,
                s == self.channels_by_shared_reference@.len(),
                m == self.channels_by_mutable_reference@.len(),
                r@.len() == i,
                forall|k: int|
                    0 <= k < r@.len() ==> self.shows_at(#[trigger] r@[k], direction, k),
            decreases s - i,
        {
            let e = EdgeEndpoint { channel_index: i, pass_by: ChannelPassBy::SharedReference };
            r.push(ChannelRef::from(&self.channels_by_shared_reference[i], e, direction));
            i = i + 1;
        }
        let mut j: usize = 0;
        while j < m
            invariant
                j <= m,
                s == self.channels_by_shared_reference@.len(),
                m == self.channels_by_mutable_reference@.len(),
                r@.len() == s + j,
                forall|k: int|
                    0 <= k < r@.len() ==> self.shows_at(#[trigger] r@[k], direction, k),
            decreases m - j,
        {
            let e = EdgeEndpoint { channel_index: j, pass_by: ChannelPassBy::MutableReference };
            r.push(ChannelRef::from(&self.channels_by_mutable_reference[j], e, direction));
            j = j + 1;
        }
        let v = values.len();
        let mut k: usize = 0;
        while k < v
            invariant
                k <= v,
                v == values@.len(),
                values@ == self.category(ChannelPassBy::Value, direction),
                s == self.channels_by_shared_reference@.len(),
                m == self.channels_by_mutable_reference@.len(),
                r@.len() == s + m + k,
                forall|q: int|
                    0 <= q < r@.len() ==> self.shows_at(#[trigger] r@[q], direction, q),
            decreases v - k,
        {
            let e = EdgeEndpoint { channel_index: k, pass_by: ChannelPassBy::Value };
            r.push(ChannelRef::from(&values[k], e, direction));
            k = k + 1;
        }
        r
    }

    /// A mutable view of the channel at `edge_endpoint` in `direction`.
    pub fn channel_mut(&mut self, direction: ChannelDirection, edge_endpoint: EdgeEndpoint) -> (r:
        ChannelRefMut<'_>)
        requires
            old(self).has_channel(direction, edge_endpoint),
        ensures
            ({
                let c = old(self).spec_channel(direction, edge_endpoint);
                &&& r.title@ == c.title@
                &&& (r.description is Some <==> c.description is Some)
                &&& (r.description matches Some(d) ==> d@ == c.description->0@)
                &&& *r.ty == c.ty
                &&& r.edge_endpoint == edge_endpoint
                &&& r.direction == direction
            }),
            final(self).replaces(
                *old(self),
                direction,
                edge_endpoint,
                Channel {
                    title: *final(r.title),
                    description: match r.description {
                        Some(d) => Some(*final(d)),
                        None => None,
                    },
                    ty: *final(r.ty),
                },
            ),
    {
        match edge_endpoint.pass_by {
            ChannelPassBy::SharedReference => ChannelRefMut::from(
                &mut self.channels_by_shared_reference[edge_endpoint.channel_index],
                edge_endpoint,
                direction,
            ),
            ChannelPassBy::MutableReference => ChannelRefMut::from(
                &mut self.channels_by_mutable_reference[edge_endpoint.channel_index],
                edge_endpoint,
                direction,
            ),
            ChannelPassBy::Value => match direction {
                ChannelDirection::In => ChannelRefMut::from(
                    &mut self.input_channels_by_value[edge_endpoint.channel_index],
                    edge_endpoint,
                    direction,
                ),
                ChannelDirection::Out => ChannelRefMut::from(
                    &mut self.output_channels_by_value[edge_endpoint.channel_index],
                    edge_endpoint,
                    direction,
                ),
            },
        }
    }

    /// The channel at `edge_endpoint` in `direction`.
    pub fn channel(&self, direction: ChannelDirection, edge_endpoint: EdgeEndpoint) -> (r:
        ChannelRef<'_>)
        requires
            self.has_channel(direction, edge_endpoint),
        ensures
            shows(r, self.spec_channel(direction, edge_endpoint), edge_endpoint, direction),
    {
        match edge_endpoint.pass_by {
            ChannelPassBy::SharedReference => ChannelRef::from(
                &self.channels_by_shared_reference[edge_endpoint.channel_index],
                edge_endpoint,
                direction,
            ),
            ChannelPassBy::MutableReference => ChannelRef::from(
                &self.channels_by_mutable_reference[edge_endpoint.channel_index],
                edge_endpoint,
                direction,
            ),
            ChannelPassBy::Value => match direction {
                ChannelDirection::In => ChannelRef::from(
                    &self.input_channels_by_value[edge_endpoint.channel_index],
                    edge_endpoint,
                    direction,
                ),
                ChannelDirection::Out => ChannelRef::from(
                    &self.output_channels_by_value[edge_endpoint.channel_index],
                    edge_endpoint,
                    direction,
                ),
            },
        }
    }
}

/// Data passed from/to a channel.
#[derive(Debug)]
pub struct ChannelValue {
    pub data: Vec<u8>,
}

/// A borrowed view of the data of a channel.
#[derive(Clone, Copy)]
pub struct ChannelValueRef<'a> {
    pub data: &'a [u8],
}

impl ChannelValue {
    pub fn as_channel_value_ref(&self) -> (r: ChannelValueRef<'_>)
        ensures
            r.data@ == self.data@,
    {
        ChannelValueRef { data: self.data.as_slice() }
    }

    pub fn as_ref(&self) -> (r: &[u8])
        ensures
            r@ == self.data@,
    {
        self.data.as_slice()
    }

    pub fn as_mut(&mut self) -> (r: &mut [u8])
        ensures
            r@ == old(self).data@,
            final(r)@ == final(self).data@,
    {
        self.data.as_mut_slice()
    }

    /// A zeroed value of type `ty`, or `None` where the type is unsized.
    pub fn zeroed(ty: &TypeEnum) -> (r: Option<Self>)
        requires
            wf(*ty),
        ensures
            r is Some <==> value_size(*ty) is Some,
            r matches Some(v) ==> v.data@ == Seq::new(value_size(*ty)->0, |i: int| 0u8),
    {
        match ty.value_size_if_sized() {
            Some(size) => {
                let data = vec![0u8; size];
                assert(data@ == Seq::new(value_size(*ty)->0, |i: int| 0u8));
                Some(ChannelValue { data })
            },
            None => None,
        }
    }
}

/// `ChannelValue`s for multiple channels.
pub struct ChannelValues {
    pub values: Vec<ChannelValue>,
}

impl ChannelValues {
    /// A zeroed value for each of the channels, all of which are sized.
    pub fn zeroed(channels: &[Channel]) -> (r: Self)
        requires
            forall|i: int| 0 <= i < channels@.len() ==> wf(#[trigger] channels@[i].ty) && value_size(channels@[i].ty) is Some,
        ensures
            r.values@.len() == channels@.len(),
            forall|i: int|
                0 <= i < channels@.len() ==> (#[trigger] r.values@[i]).data@ == Seq::new(
                    value_size(channels@[i].ty)->0,
                    |j: int| 0u8,
                ),
    {
        let mut values: Vec<ChannelValue> = Vec::new();
        let mut i: usize = 0;
        while i < channels.len()
            invariant
                i <= channels@.len(),
                values@.len() == i,
                forall|k: int| 0 <= k < channels@.len() ==> wf(#[trigger] channels@[k].ty) && value_size(channels@[k].ty) is Some,
                forall|k: int|
                    0 <= k < i ==> (#[trigger] values@[k]).data@ == Seq::new(
                        value_size(channels@[k].ty)->0,
                        |j: int| 0u8,
                    ),
            decreases channels@.len() - i,
        {
            let value = ChannelValue::zeroed(&channels[i].ty).unwrap();
            values.push(value);
            i = i + 1;
        }
        ChannelValues { values }
    }

    /// The value of the `index`-th channel.
    pub fn value(&self, index: usize) -> (r: &ChannelValue)
        requires
            index < self.values@.len(),
        ensures
            *r == self.values@[index as int],
    {
        &self.values[index]
    }
}

/// `ChannelValueRef`s for multiple channels.
pub struct ChannelValueRefs<'a> {
    pub values: Vec<ChannelValueRef<'a>>,
}

impl<'a> ChannelValueRefs<'a> {
    /// The value of the `index`-th channel.
    pub fn value(&self, index: usize) -> (r: ChannelValueRef<'a>)
        requires
            index < self.values@.len(),
        ensures
            r == self.values@[index as int],
    {
        self.values[index]
    }
}

} // verus!
