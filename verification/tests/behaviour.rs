use dvsynth::node::behaviour::{
    write_inputs, ArrayConstructorNodeBehaviour, ArrayConstructorNodeMessage, BinaryOp, BinaryOpMessage,
    BinaryOpNodeBehaviour, CounterNodeBehaviour, DebugNodeBehaviour, DebugNodeMessage,
    ListConstructorNodeBehaviour, ListConstructorNodeMessage, NodeCommand, NodeEvent, Transient,
};
use dvsynth::node::ty::{ArrayType, PrimitiveTypeEnum, TypeEnum};
use dvsynth::node::NodeConfiguration;

fn configuration(command: &NodeCommand) -> &NodeConfiguration {
    match command {
        NodeCommand::Configure(c) => c,
    }
}

#[test]
fn counter_writes_little_endian_and_counts() {
    let mut transient = Transient { count: 0x0102_0304 };
    let mut output = [0u8, 0, 0, 0, 7];
    transient.execute(&mut output);
    assert_eq!(output, [4, 3, 2, 1, 7]);
    assert_eq!(transient.count, 0x0102_0305);
    let mut counter = CounterNodeBehaviour;
    let commands = counter.update(NodeEvent::Update);
    assert_eq!(commands.len(), 1);
    let c = configuration(&commands[0]);
    assert_eq!(c.output_channels_by_value[0].title, "count");
    assert!(counter.update(NodeEvent::Message(())).is_empty());
    assert_eq!(counter.name(), "Counter");
}

#[test]
fn debug_node_follows_its_type() {
    let mut debug = DebugNodeBehaviour::default();
    assert_eq!(debug.ty, PrimitiveTypeEnum::F32);
    let commands = debug.update(NodeEvent::Message(DebugNodeMessage::UpdateType(PrimitiveTypeEnum::U8)));
    assert_eq!(debug.ty, PrimitiveTypeEnum::U8);
    let c = configuration(&commands[0]);
    assert_eq!(c.channels_by_shared_reference.len(), 1);
    assert_eq!(c.channels_by_shared_reference[0].title, "value");
    assert_eq!(c.channels_by_shared_reference[0].ty, TypeEnum::Primitive(PrimitiveTypeEnum::U8));
}

#[test]
fn array_constructor_adds_and_removes_channels() {
    let mut node = ArrayConstructorNodeBehaviour::default();
    let commands = node.update(NodeEvent::Update);
    let c = configuration(&commands[0]);
    assert_eq!(c.input_channels_by_value.len(), 1);
    assert_eq!(c.input_channels_by_value[0].title, "item #0");
    assert_eq!(c.output_channels_by_value[0].title, "array");
    assert_eq!(
        c.output_channels_by_value[0].ty,
        TypeEnum::Array(ArrayType::new(TypeEnum::Primitive(PrimitiveTypeEnum::F32), 1))
    );
    let commands = node.update(NodeEvent::Message(ArrayConstructorNodeMessage::UpdateType(PrimitiveTypeEnum::U8)));
    assert!(commands.is_empty());
    for _ in 0..10 {
        node.update(NodeEvent::Message(ArrayConstructorNodeMessage::AddChannel));
    }
    let commands = node.update(NodeEvent::Update);
    let c = configuration(&commands[0]);
    assert_eq!(c.input_channels_by_value.len(), 11);
    assert_eq!(c.input_channels_by_value[10].title, "item #10");
    assert_eq!(
        c.output_channels_by_value[0].ty,
        TypeEnum::Array(ArrayType::new(TypeEnum::Primitive(PrimitiveTypeEnum::U8), 11))
    );
    let mut one = ArrayConstructorNodeBehaviour::default();
    assert!(one.update(NodeEvent::Message(ArrayConstructorNodeMessage::RemoveChannel)).is_empty());
    assert_eq!(one.channel_count(), 1);
}

#[test]
fn list_constructor_reconfigures_on_type_change() {
    let mut node = ListConstructorNodeBehaviour::default();
    let commands = node.update(NodeEvent::Message(ListConstructorNodeMessage::UpdateType(PrimitiveTypeEnum::I16)));
    assert_eq!(commands.len(), 1);
    let c = configuration(&commands[0]);
    assert_eq!(c.output_channels_by_value[0].title, "list");
    let commands = node.update(NodeEvent::Message(ListConstructorNodeMessage::AddChannel));
    assert_eq!(configuration(&commands[0]).input_channels_by_value.len(), 2);
    let commands = node.update(NodeEvent::Message(ListConstructorNodeMessage::RemoveChannel));
    assert_eq!(configuration(&commands[0]).input_channels_by_value.len(), 1);
}

#[test]
fn binary_op_node() {
    let mut node = BinaryOpNodeBehaviour::default();
    assert!(node.update(NodeEvent::Message(BinaryOpMessage::UpdateOp(BinaryOp::Mul))).is_empty());
    assert_eq!(node.op, BinaryOp::Mul);
    let commands = node.update(NodeEvent::Message(BinaryOpMessage::UpdateType(PrimitiveTypeEnum::I64)));
    let c = configuration(&commands[0]);
    assert_eq!(c.input_channels_by_value.len(), 2);
    assert_eq!(c.output_channels_by_value[0].ty, TypeEnum::Primitive(PrimitiveTypeEnum::I64));
}

#[test]
fn binary_op_apply() {
    assert_eq!(BinaryOp::Add.apply(2u32, 3u32), 5);
    assert_eq!(BinaryOp::Sub.apply(7i64, 10i64), -3);
    assert_eq!(BinaryOp::Mul.apply(6u8, 7u8), 42);
    assert_eq!(BinaryOp::Div.apply(7u16, 2u16), 3);
    assert_eq!(BinaryOp::Div.apply(1.0f32, 4.0f32), 0.25);
}

#[test]
fn inputs_are_written_as_far_as_they_fit() {
    let mut output = [0u8; 5];
    let a = [1u8, 2];
    let b = [3u8, 4, 5, 6];
    write_inputs(&mut output, &vec![&a[..], &b[..]]);
    assert_eq!(output, [1, 2, 3, 4, 5]);
    let mut output = [9u8; 4];
    write_inputs(&mut output, &vec![&a[..]]);
    assert_eq!(output, [1, 2, 9, 9]);
}

#[test]
fn events_map_their_messages() {
    let event: NodeEvent<u32> = NodeEvent::Message(4);
    assert!(matches!(event.map_message(|m| m * 2), NodeEvent::Message(8)));
    let event: NodeEvent<u32> = NodeEvent::Update;
    assert!(matches!(event.map_message(|m| m * 2), NodeEvent::Update));
}
