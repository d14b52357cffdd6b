//! What nodes do besides passing values: the commands they give the graph, the events they
//! receive, and the decisions of the built-in node behaviours.

use vstd::prelude::*;
use vstd::string::StringExecFns;

use byteorder::{ByteOrder, LittleEndian};
use std::ops::{Add, Div, Mul, Sub};
use vstd::std_specs::ops::{AddSpec, DivSpec, MulSpec, SubSpec};

use crate::graph::NodeIndex;

use super::ty::{ArrayType, ListAllocation, ListType, PrimitiveTypeEnum, TypeEnum, Unique};
use super::{Channel, NodeConfiguration};

verus! {

/// A value handed to a node, with its type.
#[derive(Debug)]
pub struct Input {
    pub data: Vec<u8>,
    pub ty: TypeEnum,
}

pub struct Inputs {}

pub struct Outputs {}

/// What a node asks of the graph.
#[derive(Debug)]
pub enum NodeCommand {
    /// Replace the node's channels.
    Configure(NodeConfiguration),
}

/// What a node is told: to update itself, or a message of its own.
#[derive(Debug, Clone)]
pub enum NodeEvent<M> {
    Update,
    Message(M),
}

impl<M> NodeEvent<M> {
    /// The same event, with the message mapped by `map`.
    pub fn map_message<R, F: FnOnce(M) -> R>(self, map: F) -> (r: NodeEvent<R>)
        requires
            self matches NodeEvent::Message(m) ==> map.requires((m,)),
        ensures
            r is Update <==> self is Update,
            self matches NodeEvent::Message(m) ==> (r matches NodeEvent::Message(x) && map.ensures(
                (m,),
                x,
            )),
    {
        match self {
            NodeEvent::Message(message) => NodeEvent::Message(map(message)),
            NodeEvent::Update => NodeEvent::Update,
        }
    }
}

/// Makes it possible for tasks (nodes) to dynamically allocate data that can be shared with
/// other tasks via channels.
#[derive(Clone, Copy)]
pub struct AllocatorHandle {
    pub node: NodeIndex,
}

impl AllocatorHandle {
    pub fn with_node_index(node: NodeIndex) -> (r: Self)
        ensures
            r.node == node,
    {
        AllocatorHandle { node }
    }
}

/// The little-endian bytes of `n`.
pub open spec fn le_bytes_u32(n: u32) -> Seq<u8> {
    seq![
        (n % 256) as u8,
        ((n / 256) % 256) as u8,
        ((n / 65536) % 256) as u8,
        ((n / 16777216) % 256) as u8,
    ]
}

/// Calls `byteorder::LittleEndian::write_u32`: the first four bytes of `buf` become the
/// little-endian bytes of `n`; the others stay.
#[verifier::external_body]
fn write_u32_le(buf: &mut [u8], n: u32)
    requires
        old(buf)@.len() >= 4,
    ensures
        final(buf)@.len() == old(buf)@.len(),
        final(buf)@.subrange(0, 4) == le_bytes_u32(n),
        final(buf)@.subrange(4, old(buf)@.len() as int) == old(buf)@.subrange(4, old(buf)@.len() as int),
{
    LittleEndian::write_u32(buf, n)
}

/// A node that counts the executions of the graph.
#[derive(Clone, Debug, Default)]
pub struct CounterNodeBehaviour;

/// The state a counter keeps from one execution to the next.
#[derive(Default, Debug, Clone)]
pub struct Transient {
    pub count: u32,
}

impl CounterNodeBehaviour {
    pub fn name(&self) -> (r: &'static str)
        ensures
            r@ == "Counter"@,
    {
        "Counter"
    }

    /// On `Update`, configures a single output: the count. Messages change nothing.
    pub fn update(&mut self, event: NodeEvent<()>) -> (r: Vec<NodeCommand>)
        ensures
            event is Message ==> r@.len() == 0,
            event is Update ==> r@.len() == 1 && (r@[0] matches NodeCommand::Configure(c)
                && is_counter_configuration(c)),
    {
        match event {
            NodeEvent::Update => {
                let configuration = NodeConfiguration::new().with_output_value(
                    Channel::new("count".to_string(), TypeEnum::Primitive(PrimitiveTypeEnum::U32)),
                );
                let mut commands: Vec<NodeCommand> = Vec::new();
                commands.push(NodeCommand::Configure(configuration));
                commands
            },
            NodeEvent::Message(_) => Vec::new(),
        }
    }
}

/// The configuration of a counter: no inputs and a single `u32` output named "count".
pub open spec fn is_counter_configuration(c: NodeConfiguration) -> bool {
    &&& c.channels_by_shared_reference@.len() == 0
    &&& c.channels_by_mutable_reference@.len() == 0
    &&& c.input_channels_by_value@.len() == 0
    &&& c.output_channels_by_value@.len() == 1
    &&& c.output_channels_by_value@[0].title@ == "count"@
    &&& c.output_channels_by_value@[0].ty == TypeEnum::Primitive(PrimitiveTypeEnum::U32)
    &&& c.output_channels_by_value@[0].description is None
}

impl Transient {
    /// One execution of a counter: writes the current count to the output, then counts on.
    pub fn execute(&mut self, output: &mut [u8])
        requires
            old(output)@.len() >= 4,
            old(self).count < u32::MAX,
        ensures
            final(self).count == old(self).count + 1,
            final(output)@.len() == old(output)@.len(),
            final(output)@.subrange(0, 4) == le_bytes_u32(old(self).count),
            final(output)@.subrange(4, old(output)@.len() as int) == old(output)@.subrange(
                4,
                old(output)@.len() as int,
            ),
    {
        write_u32_le(output, self.count);
        self.count = self.count + 1;
    }
}

/// Messages of the debug node.
#[derive(Debug, Clone)]
pub enum DebugNodeMessage {
    UpdateType(PrimitiveTypeEnum),
}

/// A node that shows the value it borrows.
#[derive(Debug, Clone)]
pub struct DebugNodeBehaviour {
    pub ty: PrimitiveTypeEnum,
}

/// The configuration of a debug node for values of type `ty`: one borrow named "value".
pub open spec fn is_debug_configuration(c: NodeConfiguration, ty: PrimitiveTypeEnum) -> bool {
    &&& c.channels_by_shared_reference@.len() == 1
    &&& c.channels_by_shared_reference@[0].title@ == "value"@
    &&& c.channels_by_shared_reference@[0].ty == TypeEnum::Primitive(ty)
    &&& c.channels_by_shared_reference@[0].description is None
    &&& c.channels_by_mutable_reference@.len() == 0
    &&& c.input_channels_by_value@.len() == 0
    &&& c.output_channels_by_value@.len() == 0
}

impl DebugNodeBehaviour {
    /// A debug node for `f32` values.
    pub fn default() -> (r: Self)
        ensures
            r.ty == PrimitiveTypeEnum::F32,
    {
        DebugNodeBehaviour { ty: PrimitiveTypeEnum::F32 }
    }

    pub fn name(&self) -> (r: &'static str)
        ensures
            r@ == "Debug"@,
    {
        "Debug"
    }

    pub fn get_configure_command(&self) -> (r: NodeCommand)
        ensures
            r matches NodeCommand::Configure(c) && is_debug_configuration(c, self.ty),
    {
        NodeCommand::Configure(
            NodeConfiguration::new().with_borrow(
                Channel::new("value".to_string(), TypeEnum::Primitive(self.ty)),
            ),
        )
    }

    /// Takes on a new type when told so, and configures the node for its type.
    pub fn update(&mut self, event: NodeEvent<DebugNodeMessage>) -> (r: Vec<NodeCommand>)
        ensures
            event is Update ==> final(self).ty == old(self).ty,
            event matches NodeEvent::Message(DebugNodeMessage::UpdateType(ty)) ==> final(self).ty == ty,
            r@.len() == 1,
            r@[0] matches NodeCommand::Configure(c) && is_debug_configuration(c, final(self).ty),
    {
        let mut commands: Vec<NodeCommand> = Vec::new();
        match event {
            NodeEvent::Update => {
                commands.push(self.get_configure_command());
            },
            NodeEvent::Message(message) => {
                match message {
                    DebugNodeMessage::UpdateType(ty) => {
                        self.ty = ty;
                        commands.push(self.get_configure_command());
                    },
                }
            },
        }
        commands
    }
}

/// A binary arithmetic operation.
#[derive(PartialEq, Eq, Copy, Clone, Debug, Structural)]
pub enum BinaryOp {
    Add,
    Sub,
    Mul,
    Div,
}

impl BinaryOp {
    /// Applies the operation to `lhs` and `rhs`, through the operator traits of `T`.
    pub fn apply<T: Add<Output = T> + Sub<Output = T> + Mul<Output = T> + Div<Output = T>>(
        self,
        lhs: T,
        rhs: T,
    ) -> (r: T)
        requires
            self == BinaryOp::Add ==> lhs.add_req(rhs),
            self == BinaryOp::Sub ==> lhs.sub_req(rhs),
            self == BinaryOp::Mul ==> lhs.mul_req(rhs),
            self == BinaryOp::Div ==> lhs.div_req(rhs),
        ensures
            self == BinaryOp::Add && T::obeys_add_spec() ==> r == lhs.add_spec(rhs),
            self == BinaryOp::Sub && T::obeys_sub_spec() ==> r == lhs.sub_spec(rhs),
            self == BinaryOp::Mul && T::obeys_mul_spec() ==> r == lhs.mul_spec(rhs),
            self == BinaryOp::Div && T::obeys_div_spec() ==> r == lhs.div_spec(rhs),
    {
        match self {
            BinaryOp::Add => lhs.add(rhs),
            BinaryOp::Sub => lhs.sub(rhs),
            BinaryOp::Mul => lhs.mul(rhs),
            BinaryOp::Div => lhs.div(rhs),
        }
    }
}

/// Messages of the binary operation node.
#[derive(Debug, Clone)]
pub enum BinaryOpMessage {
    UpdateType(PrimitiveTypeEnum),
    UpdateOp(BinaryOp),
}

/// The character of the decimal digit `d`.
pub open spec fn digit_char(d: nat) -> char {
    (48 + d) as char
}

/// The decimal digits of `n`, most significant first, without leading zeros.
pub open spec fn decimal(n: nat) -> Seq<char>
    decreases n,
{
    if n < 10 {
        seq![digit_char(n)]
    } else {
        decimal(n / 10).push(digit_char(n % 10))
    }
}

/// The title of the `index`-th item channel: "item #" and the index in decimal.
pub open spec fn item_title(index: nat) -> Seq<char> {
    "item #"@ + decimal(index)
}

/// Appends the character of the decimal digit `d` to `s`.
fn append_digit(s: &mut String, d: usize)
    requires
        d < 10,
    ensures
        final(s)@ == old(s)@.push(digit_char(d as nat)),
{
    let digit = match d {
        0 => "0",
        1 => "1",
        2 => "2",
        3 => "3",
        4 => "4",
        5 => "5",
        6 => "6",
        7 => "7",
        8 => "8",
        _ => "9",
    };
    proof {
        reveal_strlit("0");
        reveal_strlit("1");
        reveal_strlit("2");
        reveal_strlit("3");
        reveal_strlit("4");
        reveal_strlit("5");
        reveal_strlit("6");
        reveal_strlit("7");
        reveal_strlit("8");
        reveal_strlit("9");
        assert(digit@ == seq![digit_char(d as nat)]);
    }
    s.append(digit);
    assert(s@ =~= old(s)@.push(digit_char(d as nat)));
}

/// Appends the decimal digits of `n` to `s`.
pub fn append_decimal(s: &mut String, n: usize)
    ensures
        final(s)@ == old(s)@ + decimal(n as nat),
    decreases n,
{
    if n >= 10 {
        append_decimal(s, n / 10);
    }
    append_digit(s, n % 10);
    assert(s@ =~= old(s)@ + decimal(n as nat));
}

/// The title of the `index`-th item channel.
fn format_item_title(index: usize) -> (r: String)
    ensures
        r@ == item_title(index as nat),
{
    let mut title = String::from_str("item #");
    append_decimal(&mut title, index);
    proof {
        reveal_strlit("item #");
    }
    title
}

/// `count` input channels of primitive type `ty`, titled by their position.
fn item_channels(ty: PrimitiveTypeEnum, count: usize) -> (r: Vec<Channel>)
    ensures
        are_item_channels(r@, ty, count as nat),
{
    let mut channels: Vec<Channel> = Vec::new();
    let mut channel_index: usize = 0;
    while channel_index < count
        invariant
            channel_index <= count,
            are_item_channels(channels@, ty, channel_index as nat),
        decreases count - channel_index,
    {
        channels.push(Channel::new(format_item_title(channel_index), TypeEnum::Primitive(ty)));
        channel_index = channel_index + 1;
    }
    channels
}

/// `channels` are `count` channels of primitive type `ty`, titled by their position.
pub open spec fn are_item_channels(channels: Seq<Channel>, ty: PrimitiveTypeEnum, count: nat) -> bool {
    &&& channels.len() == count
    &&& forall|i: int|
        0 <= i < count ==> (#[trigger] channels[i]).title@ == item_title(i as nat) && channels[i].ty
            == TypeEnum::Primitive(ty) && channels[i].description is None
}

/// Messages of the array constructor node.
#[derive(Debug, Clone)]
pub enum ArrayConstructorNodeMessage {
    UpdateType(PrimitiveTypeEnum),
    AddChannel,
    RemoveChannel,
}

/// A node that builds an array out of its inputs.
#[derive(Debug)]
pub struct ArrayConstructorNodeBehaviour {
    ty: PrimitiveTypeEnum,
    channel_count: usize,
}

/// The configuration of an array constructor: `count` inputs of type `ty` and one output, an
/// array of `count` such items.
pub open spec fn is_array_constructor_configuration(
    c: NodeConfiguration,
    ty: PrimitiveTypeEnum,
    count: nat,
) -> bool {
    &&& c.channels_by_shared_reference@.len() == 0
    &&& c.channels_by_mutable_reference@.len() == 0
    &&& are_item_channels(c.input_channels_by_value@, ty, count)
    &&& c.output_channels_by_value@.len() == 1
    &&& c.output_channels_by_value@[0].title@ == "array"@
    &&& c.output_channels_by_value@[0].ty == TypeEnum::Array(
        ArrayType { item_type: Box::new(TypeEnum::Primitive(ty)), len: count as usize },
    )
    &&& c.output_channels_by_value@[0].description is None
}

impl Clone for ArrayConstructorNodeBehaviour {
    fn clone(&self) -> (r: Self)
        ensures
            r == *self,
    {
        proof {
            use_type_invariant(self);
        }
        ArrayConstructorNodeBehaviour { ty: self.ty, channel_count: self.channel_count }
    }
}

impl ArrayConstructorNodeBehaviour {
    /// A array constructor has at least one item channel.
    #[verifier::type_invariant]
    spec fn has_items(self) -> bool {
        self.channel_count >= 1
    }

    /// The type of the items.
    pub closed spec fn spec_ty(self) -> PrimitiveTypeEnum {
        self.ty
    }

    /// The number of item channels.
    pub closed spec fn spec_channel_count(self) -> usize {
        self.channel_count
    }

    /// The type of the items.
    pub fn ty(&self) -> (r: PrimitiveTypeEnum)
        ensures
            r == self.spec_ty(),
    {
        self.ty
    }

    /// The number of item channels, at least one.
    pub fn channel_count(&self) -> (r: usize)
        ensures
            r == self.spec_channel_count(),
            r >= 1,
    {
        proof {
            use_type_invariant(self);
        }
        self.channel_count
    }

    /// An array constructor of a single `f32` item.
    pub fn default() -> (r: Self)
        ensures
            r.spec_ty() == PrimitiveTypeEnum::F32,
            r.spec_channel_count() == 1,
    {
        ArrayConstructorNodeBehaviour { ty: PrimitiveTypeEnum::F32, channel_count: 1 }
    }

    pub fn name(&self) -> (r: &'static str)
        ensures
            r@ == "ArrayConstructor"@,
    {
        "ArrayConstructor"
    }

    pub fn get_configure_command(&self) -> (r: NodeCommand)
        ensures
            r matches NodeCommand::Configure(c) && is_array_constructor_configuration(
                c,
                self.spec_ty(),
                self.spec_channel_count() as nat,
            ),
    {
        let inputs = item_channels(self.ty, self.channel_count);
        let array = ArrayType::new_if_sized(TypeEnum::Primitive(self.ty), self.channel_count).unwrap();
        let mut configuration = NodeConfiguration::new();
        configuration.input_channels_by_value = inputs;
        configuration = configuration.with_output_value(
            Channel::new("array".to_string(), TypeEnum::Array(array)),
        );
        NodeCommand::Configure(configuration)
    }

    /// Changes the type (without reconfiguring), or adds or removes an item channel (never
    /// the last one) and reconfigures the node.
    pub fn update(&mut self, event: NodeEvent<ArrayConstructorNodeMessage>) -> (r: Vec<NodeCommand>)
        requires
            event matches NodeEvent::Message(ArrayConstructorNodeMessage::AddChannel)
                ==> old(self).spec_channel_count() < usize::MAX,
        ensures
            event is Update ==> *final(self) == *old(self) && r@.len() == 1,
            event matches NodeEvent::Message(ArrayConstructorNodeMessage::UpdateType(ty)) ==> final(self).spec_ty() == ty && final(self).spec_channel_count() == old(self).spec_channel_count() && r@.len() == 0,
            event matches NodeEvent::Message(ArrayConstructorNodeMessage::AddChannel) ==> final(self).spec_ty() == old(self).spec_ty() && final(self).spec_channel_count() == old(self).spec_channel_count() + 1
                && r@.len() == 1,
            event matches NodeEvent::Message(ArrayConstructorNodeMessage::RemoveChannel) ==> final(self).spec_ty() == old(self).spec_ty() && (if old(self).spec_channel_count() > 1 {
                final(self).spec_channel_count() == old(self).spec_channel_count() - 1 && r@.len() == 1
            } else {
                final(self).spec_channel_count() == 1 && r@.len() == 0
            }),
            r@.len() == 1 ==> (r@[0] matches NodeCommand::Configure(c)
                && is_array_constructor_configuration(c, final(self).spec_ty(), final(self).spec_channel_count() as nat)),
    {
        proof {
            use_type_invariant(&*self);
        }
        let mut commands: Vec<NodeCommand> = Vec::new();
        match event {
            NodeEvent::Update => {
                commands.push(self.get_configure_command());
            },
            NodeEvent::Message(message) => {
                match message {
                    ArrayConstructorNodeMessage::UpdateType(ty) => {
                        self.ty = ty;
                    },
                    ArrayConstructorNodeMessage::AddChannel => {
                        self.channel_count = self.channel_count + 1;
                        commands.push(self.get_configure_command());
                    },
                    ArrayConstructorNodeMessage::RemoveChannel => {
                        let new_value = self.channel_count - 1;
                        if new_value != 0 {
                            self.channel_count = new_value;
                            commands.push(self.get_configure_command());
                        }
                    },
                }
            },
        }
        commands
    }
}

/// Messages of the list constructor node.
#[derive(Debug, Clone)]
pub enum ListConstructorNodeMessage {
    UpdateType(PrimitiveTypeEnum),
    AddChannel,
    RemoveChannel,
}

/// Messages of the constant node.
#[derive(Debug, Clone)]
pub enum ConstantNodeMessage {
    UpdateType(PrimitiveTypeEnum),
    UpdateValue(String),
}

/// A node that builds a list out of its inputs.
#[derive(Debug)]
pub struct ListConstructorNodeBehaviour {
    ty: PrimitiveTypeEnum,
    channel_count: usize,
}

/// The configuration of a list constructor: `count` inputs of type `ty` and one output, a
/// unique pointer to a list of such items.
pub open spec fn is_list_constructor_configuration(
    c: NodeConfiguration,
    ty: PrimitiveTypeEnum,
    count: nat,
) -> bool {
    &&& c.channels_by_shared_reference@.len() == 0
    &&& c.channels_by_mutable_reference@.len() == 0
    &&& are_item_channels(c.input_channels_by_value@, ty, count)
    &&& c.output_channels_by_value@.len() == 1
    &&& c.output_channels_by_value@[0].title@ == "list"@
    &&& c.output_channels_by_value@[0].ty == TypeEnum::Unique(
        Unique { child_ty: Box::new(TypeEnum::List(ListType { child_ty: Box::new(TypeEnum::Primitive(ty)) })) },
    )
    &&& c.output_channels_by_value@[0].description is None
}

impl Clone for ListConstructorNodeBehaviour {
    fn clone(&self) -> (r: Self)
        ensures
            r == *self,
    {
        proof {
            use_type_invariant(self);
        }
        ListConstructorNodeBehaviour { ty: self.ty, channel_count: self.channel_count }
    }
}

impl ListConstructorNodeBehaviour {
    /// A list constructor has at least one item channel.
    #[verifier::type_invariant]
    spec fn has_items(self) -> bool {
        self.channel_count >= 1
    }

    /// The type of the items.
    pub closed spec fn spec_ty(self) -> PrimitiveTypeEnum {
        self.ty
    }

    /// The number of item channels.
    pub closed spec fn spec_channel_count(self) -> usize {
        self.channel_count
    }

    /// The type of the items.
    pub fn ty(&self) -> (r: PrimitiveTypeEnum)
        ensures
            r == self.spec_ty(),
    {
        self.ty
    }

    /// The number of item channels, at least one.
    pub fn channel_count(&self) -> (r: usize)
        ensures
            r == self.spec_channel_count(),
            r >= 1,
    {
        proof {
            use_type_invariant(self);
        }
        self.channel_count
    }

    /// A list constructor of a single `f32` item.
    pub fn default() -> (r: Self)
        ensures
            r.spec_ty() == PrimitiveTypeEnum::F32,
            r.spec_channel_count() == 1,
    {
        ListConstructorNodeBehaviour { ty: PrimitiveTypeEnum::F32, channel_count: 1 }
    }

    pub fn name(&self) -> (r: &'static str)
        ensures
            r@ == "ListConstructor"@,
    {
        "ListConstructor"
    }

    pub fn get_configure_command(&self) -> (r: NodeCommand)
        ensures
            r matches NodeCommand::Configure(c) && is_list_constructor_configuration(
                c,
                self.spec_ty(),
                self.spec_channel_count() as nat,
            ),
    {
        let inputs = item_channels(self.ty, self.channel_count);
        let list = Unique::new(TypeEnum::List(ListType::new(TypeEnum::Primitive(self.ty))));
        let mut configuration = NodeConfiguration::new();
        configuration.input_channels_by_value = inputs;
        configuration = configuration.with_output_value(
            Channel::new("list".to_string(), TypeEnum::Unique(list)),
        );
        NodeCommand::Configure(configuration)
    }

    /// Changes the type, or adds or removes an item channel (never the last one), and
    /// reconfigures the node where anything changed.
    pub fn update(&mut self, event: NodeEvent<ListConstructorNodeMessage>) -> (r: Vec<NodeCommand>)
        requires
            event matches NodeEvent::Message(ListConstructorNodeMessage::AddChannel)
                ==> old(self).spec_channel_count() < usize::MAX,
        ensures
            event is Update ==> *final(self) == *old(self) && r@.len() == 1,
            event matches NodeEvent::Message(ListConstructorNodeMessage::UpdateType(ty)) ==> final(self).spec_ty() == ty
                && final(self).spec_channel_count() == old(self).spec_channel_count() && r@.len() == 1,
            event matches NodeEvent::Message(ListConstructorNodeMessage::AddChannel) ==> final(self).spec_ty() == old(self).spec_ty()
                && final(self).spec_channel_count() == old(self).spec_channel_count() + 1 && r@.len() == 1,
            event matches NodeEvent::Message(ListConstructorNodeMessage::RemoveChannel) ==> final(self).spec_ty() == old(self).spec_ty()
                && (if old(self).spec_channel_count() > 1 {
                final(self).spec_channel_count() == old(self).spec_channel_count() - 1 && r@.len() == 1
            } else {
                final(self).spec_channel_count() == 1 && r@.len() == 0
            }),
            r@.len() == 1 ==> (r@[0] matches NodeCommand::Configure(c)
                && is_list_constructor_configuration(c, final(self).spec_ty(), final(self).spec_channel_count() as nat)),
    {
        proof {
            use_type_invariant(&*self);
        }
        let mut commands: Vec<NodeCommand> = Vec::new();
        match event {
            NodeEvent::Update => {
                commands.push(self.get_configure_command());
            },
            NodeEvent::Message(message) => {
                match message {
                    ListConstructorNodeMessage::UpdateType(ty) => {
                        self.ty = ty;
                        commands.push(self.get_configure_command());
                    },
                    ListConstructorNodeMessage::AddChannel => {
                        self.channel_count = self.channel_count + 1;
                        commands.push(self.get_configure_command());
                    },
                    ListConstructorNodeMessage::RemoveChannel => {
                        let new_value = self.channel_count - 1;
                        if new_value != 0 {
                            self.channel_count = new_value;
                            commands.push(self.get_configure_command());
                        }
                    },
                }
            },
        }
        commands
    }
}

/// A node that applies a binary operation to two values of a primitive type.
#[derive(Clone, Debug)]
pub struct BinaryOpNodeBehaviour {
    pub pick_list_ty_value: PrimitiveTypeEnum,
    pub op: BinaryOp,
}

/// The configuration of a binary operation on `ty`: inputs "lhs" and "rhs", output "result".
pub open spec fn is_binary_op_configuration(c: NodeConfiguration, ty: PrimitiveTypeEnum) -> bool {
    &&& c.channels_by_shared_reference@.len() == 0
    &&& c.channels_by_mutable_reference@.len() == 0
    &&& c.input_channels_by_value@.len() == 2
    &&& c.input_channels_by_value@[0].title@ == "lhs"@
    &&& c.input_channels_by_value@[1].title@ == "rhs"@
    &&& c.output_channels_by_value@.len() == 1
    &&& c.output_channels_by_value@[0].title@ == "result"@
    &&& c.input_channels_by_value@[0].ty == TypeEnum::Primitive(ty)
    &&& c.input_channels_by_value@[1].ty == TypeEnum::Primitive(ty)
    &&& c.output_channels_by_value@[0].ty == TypeEnum::Primitive(ty)
    &&& c.input_channels_by_value@[0].description is None
    &&& c.input_channels_by_value@[1].description is None
    &&& c.output_channels_by_value@[0].description is None
}

impl BinaryOpNodeBehaviour {
    /// An addition of `f32` values.
    pub fn default() -> (r: Self)
        ensures
            r.op == BinaryOp::Add,
            r.pick_list_ty_value == PrimitiveTypeEnum::F32,
    {
        BinaryOpNodeBehaviour { pick_list_ty_value: PrimitiveTypeEnum::F32, op: BinaryOp::Add }
    }

    pub fn name(&self) -> (r: &'static str)
        ensures
            r@ == "Binary Operation"@,
    {
        "Binary Operation"
    }

    pub fn get_configure_command(&self) -> (r: NodeCommand)
        ensures
            r matches NodeCommand::Configure(c) && is_binary_op_configuration(c, self.pick_list_ty_value),
    {
        let ty = self.pick_list_ty_value;
        NodeCommand::Configure(
            NodeConfiguration::new().with_input_value(
                Channel::new("lhs".to_string(), TypeEnum::Primitive(ty)),
            ).with_input_value(Channel::new("rhs".to_string(), TypeEnum::Primitive(ty))).with_output_value(
                Channel::new("result".to_string(), TypeEnum::Primitive(ty)),
            ),
        )
    }

    /// A new type reconfigures the node; a new operation changes only the operation.
    pub fn update(&mut self, event: NodeEvent<BinaryOpMessage>) -> (r: Vec<NodeCommand>)
        ensures
            event is Update ==> *final(self) == *old(self) && r@.len() == 1,
            event matches NodeEvent::Message(BinaryOpMessage::UpdateType(ty)) ==> final(self).pick_list_ty_value == ty
                && final(self).op == old(self).op && r@.len() == 1,
            event matches NodeEvent::Message(BinaryOpMessage::UpdateOp(op)) ==> final(self).op == op
                && final(self).pick_list_ty_value == old(self).pick_list_ty_value && r@.len() == 0,
            r@.len() == 1 ==> (r@[0] matches NodeCommand::Configure(c) && is_binary_op_configuration(
                c,
                final(self).pick_list_ty_value,
            )),
    {
        let mut commands: Vec<NodeCommand> = Vec::new();
        match event {
            NodeEvent::Update => {
                commands.push(self.get_configure_command());
            },
            NodeEvent::Message(message) => {
                match message {
                    BinaryOpMessage::UpdateType(ty) => {
                        self.pick_list_ty_value = ty;
                        commands.push(self.get_configure_command());
                    },
                    BinaryOpMessage::UpdateOp(value) => {
                        self.op = value;
                    },
                }
            },
        }
        commands
    }
}

/// The bytes of all inputs, one after the other.
pub open spec fn joined(inputs: Seq<&[u8]>) -> Seq<u8>
    decreases inputs.len(),
{
    if inputs.len() == 0 {
        Seq::empty()
    } else {
        joined(inputs.drop_last()) + inputs.last()@
    }
}

/// Writes the bytes of all inputs, one after the other, to the start of `output`, as far as
/// they fit; the bytes after them stay. This is what the array and list constructors do with
/// their inputs when they run.
pub fn write_inputs(output: &mut [u8], inputs: &Vec<&[u8]>)
    ensures
        final(output)@.len() == old(output)@.len(),
        ({
            let n = if joined(inputs@).len() < old(output)@.len() {
                joined(inputs@).len() as int
            } else {
                old(output)@.len() as int
            };
            &&& final(output)@.subrange(0, n) == joined(inputs@).subrange(0, n)
            &&& final(output)@.subrange(n, old(output)@.len() as int) == old(output)@.subrange(
                n,
                old(output)@.len() as int,
            )
        }),
{
    let mut position: usize = 0;
    let mut k: usize = 0;
    while k < inputs.len()
        invariant
            k <= inputs@.len(),
            output@.len() == old(output)@.len(),
            position == if joined(inputs@.take(k as int)).len() < output@.len() {
                joined(inputs@.take(k as int)).len() as int
            } else {
                output@.len() as int
            },
            forall|j: int| 0 <= j < position ==> output@[j] == joined(inputs@.take(k as int))[j],
            forall|j: int| position <= j < output@.len() ==> output@[j] == old(output)@[j],
        decreases inputs@.len() - k,
    {
        let input = inputs[k];
        proof {
            assert(inputs@.take(k + 1).drop_last() =~= inputs@.take(k as int));
            assert(inputs@.take(k + 1).last() == input);
        }
        let ghost before = joined(inputs@.take(k as int));
        let ghost start = position;
        let mut i: usize = 0;
        while i < input.len() && position < output.len()
            invariant
                i <= input@.len(),
                output@.len() == old(output)@.len(),
                start <= position <= output@.len(),
                position == start + i,
                before == joined(inputs@.take(k as int)),
                start == if before.len() < output@.len() {
                    before.len() as int
                } else {
                    output@.len() as int
                },
                forall|j: int| 0 <= j < position ==> output@[j] == (before + input@)[j],
                forall|j: int| position <= j < output@.len() ==> output@[j] == old(output)@[j],
            decreases input@.len() - i,
        {
            output[position] = input[i];
            position = position + 1;
            i = i + 1;
        }
        proof {
            assert(joined(inputs@.take(k + 1)) == before + input@);
        }
        k = k + 1;
    }
    proof {
        assert(inputs@.take(k as int) =~= inputs@);
        let n = position as int;
        assert(output@.subrange(0, n) =~= joined(inputs@).subrange(0, n));
        assert(output@.subrange(n, output@.len() as int) =~= old(output)@.subrange(n, old(output)@.len() as int));
    }
}


/// The list that a list constructor builds from its inputs: a list of items of the primitive
/// type `item_ty`, whose items are the input values in order, one item each.
pub fn build_list(item_ty: PrimitiveTypeEnum, inputs: &Vec<&[u8]>) -> (r: ListAllocation)
    requires
        forall|k: int| 0 <= k < inputs@.len() ==> (#[trigger] inputs@[k])@.len() == item_ty.size(),
    ensures
        r.descriptor.child_ty == TypeEnum::Primitive(item_ty),
        r.item_size == item_ty.size(),
        r.data@ == joined(inputs@),
{
    let mut list = ListAllocation::new(TypeEnum::Primitive(item_ty));
    let mut k: usize = 0;
    assert(inputs@.take(0) =~= Seq::<&[u8]>::empty());
    assert(list.data@ =~= joined(inputs@.take(0)));
    while k < inputs.len()
        invariant
            k <= inputs@.len(),
            list.descriptor.child_ty == TypeEnum::Primitive(item_ty),
            list.item_size == item_ty.size(),
            list.data@ == joined(inputs@.take(k as int)),
        decreases inputs@.len() - k,
    {
        let input = inputs[k];
        let ghost before = list.data@;
        let mut i: usize = 0;
        while i < input.len()
            invariant
                i <= input@.len(),
                list.descriptor.child_ty == TypeEnum::Primitive(item_ty),
                list.item_size == item_ty.size(),
                list.data@ == before + input@.subrange(0, i as int),
            decreases input@.len() - i,
        {
            list.data.push(input[i]);
            assert(list.data@ =~= before + input@.subrange(0, i + 1));
            i = i + 1;
        }
        proof {
            assert(inputs@.take(k + 1).drop_last() =~= inputs@.take(k as int));
            assert(input@.subrange(0, i as int) =~= input@);
        }
        k = k + 1;
    }
    assert(inputs@.take(k as int) =~= inputs@);
    list
}

} // verus!
