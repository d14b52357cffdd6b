use dvsynth::graph::execution::ExecutionGraph;
use dvsynth::graph::schedule::{reused_task_indices, Schedule, Task, TaskInput};
use dvsynth::graph::{ChannelIdentifier, Connection, EdgeData, EdgeEndpoint, NodeData};
use dvsynth::node::ty::{PrimitiveTypeEnum, TypeEnum};
use dvsynth::node::{Channel, ChannelDirection, ChannelPassBy, NodeConfiguration};

fn u32_ty() -> TypeEnum {
    TypeEnum::Primitive(PrimitiveTypeEnum::U32)
}

fn node(title: &str, configuration: NodeConfiguration) -> NodeData {
    NodeData { title: title.to_string(), configuration }
}

fn value(channel_index: usize) -> EdgeEndpoint {
    EdgeEndpoint { channel_index, pass_by: ChannelPassBy::Value }
}

fn shared(channel_index: usize) -> EdgeEndpoint {
    EdgeEndpoint { channel_index, pass_by: ChannelPassBy::SharedReference }
}

fn source() -> NodeConfiguration {
    NodeConfiguration::new().with_output_value(Channel::new("out".to_string(), u32_ty()))
}

fn relay() -> NodeConfiguration {
    NodeConfiguration::new()
        .with_input_value(Channel::new("in".to_string(), u32_ty()))
        .with_output_value(Channel::new("out".to_string(), u32_ty()))
}

fn sink() -> NodeConfiguration {
    NodeConfiguration::new().with_input_value(Channel::new("in".to_string(), u32_ty()))
}

fn task(schedule: &Schedule, p: usize) -> &Task {
    schedule.tasks[p].as_ref().unwrap()
}

#[test]
fn chain_is_valid_and_scheduled_in_order() {
    let mut graph = ExecutionGraph::new();
    let a = graph.add_node(node("a", source())).unwrap();
    let b = graph.add_node(node("b", relay())).unwrap();
    let c = graph.add_node(node("c", sink())).unwrap();
    graph.add_edge(a, b, EdgeData { endpoint_from: value(0), endpoint_to: value(0) }).unwrap();
    graph.add_edge(b, c, EdgeData { endpoint_from: value(0), endpoint_to: value(0) }).unwrap();
    assert_eq!(graph.check_graph_validity(), Ok(()));
    let schedule = graph.create_schedule().unwrap();
    assert_eq!(schedule.generation, 0);
    assert_eq!(schedule.tasks.len(), 3);
    assert_eq!(task(&schedule, 0).node_index, a);
    assert_eq!(task(&schedule, 1).node_index, b);
    assert_eq!(task(&schedule, 2).node_index, c);
    assert!(task(&schedule, 0).inputs.is_empty());
    assert_eq!(task(&schedule, 1).inputs, vec![TaskInput { task_index: 0, output_value_channel_index: 0 }]);
    assert_eq!(task(&schedule, 2).inputs, vec![TaskInput { task_index: 1, output_value_channel_index: 0 }]);
}

#[test]
fn borrows_resolve_to_the_value_they_pass_on() {
    let mut graph = ExecutionGraph::new();
    let a = graph.add_node(node("a", source())).unwrap();
    let b = graph
        .add_node(node("b", NodeConfiguration::new().with_borrow(Channel::new("x".to_string(), u32_ty()))))
        .unwrap();
    let c = graph
        .add_node(node("c", NodeConfiguration::new().with_borrow(Channel::new("y".to_string(), u32_ty()))))
        .unwrap();
    graph.add_edge(a, b, EdgeData { endpoint_from: value(0), endpoint_to: shared(0) }).unwrap();
    graph.add_edge(b, c, EdgeData { endpoint_from: shared(0), endpoint_to: shared(0) }).unwrap();
    let schedule = graph.create_schedule().unwrap();
    let expected = vec![TaskInput { task_index: 0, output_value_channel_index: 0 }];
    assert_eq!(task(&schedule, 1).borrows, expected);
    assert_eq!(task(&schedule, 2).borrows, expected);
}

#[test]
fn unconnected_node_with_inputs_is_disabled() {
    let mut graph = ExecutionGraph::new();
    let a = graph.add_node(node("a", sink())).unwrap();
    let b = graph.add_node(node("b", source())).unwrap();
    let schedule = graph.create_schedule().unwrap();
    assert_eq!(schedule.tasks.len(), 2);
    for entry in schedule.tasks.iter() {
        match entry {
            Some(t) => assert_eq!(t.node_index, b),
            None => {},
        }
    }
    assert_eq!(schedule.tasks.iter().filter(|t| t.is_none()).count(), 1);
    let _ = a;
}

#[test]
fn reference_from_disabled_task_disables_its_target() {
    let mut graph = ExecutionGraph::new();
    let a = graph
        .add_node(node(
            "a",
            NodeConfiguration::new()
                .with_input_value(Channel::new("in".to_string(), u32_ty()))
                .with_borrow(Channel::new("x".to_string(), u32_ty())),
        ))
        .unwrap();
    let b = graph
        .add_node(node("b", NodeConfiguration::new().with_borrow(Channel::new("y".to_string(), u32_ty()))))
        .unwrap();
    graph.add_edge(a, b, EdgeData { endpoint_from: shared(0), endpoint_to: shared(0) }).unwrap();
    let schedule = graph.create_schedule().unwrap();
    assert!(schedule.tasks.iter().all(|t| t.is_none()));
}

#[test]
fn uncovered_input_is_invalid() {
    let mut graph = ExecutionGraph::new();
    let a = graph.add_node(node("a", source())).unwrap();
    let b = graph
        .add_node(node(
            "b",
            NodeConfiguration::new()
                .with_input_value(Channel::new("lhs".to_string(), u32_ty()))
                .with_input_value(Channel::new("rhs".to_string(), u32_ty())),
        ))
        .unwrap();
    graph.add_edge(a, b, EdgeData { endpoint_from: value(0), endpoint_to: value(0) }).unwrap();
    assert_eq!(graph.check_graph_validity(), Err(()));
    assert!(graph.create_schedule().is_err());
}

#[test]
fn incompatible_types_are_invalid() {
    let mut graph = ExecutionGraph::new();
    let a = graph.add_node(node("a", source())).unwrap();
    let b = graph
        .add_node(node(
            "b",
            NodeConfiguration::new()
                .with_input_value(Channel::new("in".to_string(), TypeEnum::Primitive(PrimitiveTypeEnum::F32))),
        ))
        .unwrap();
    graph.add_edge(a, b, EdgeData { endpoint_from: value(0), endpoint_to: value(0) }).unwrap();
    assert_eq!(graph.check_graph_validity(), Err(()));
}

#[test]
fn loop_on_one_node_is_invalid() {
    let mut graph = ExecutionGraph::new();
    let a = graph.add_node(node("a", relay())).unwrap();
    graph.add_edge(a, a, EdgeData { endpoint_from: value(0), endpoint_to: value(0) }).unwrap();
    assert_eq!(graph.check_graph_validity(), Err(()));
}

#[test]
fn aliased_output_cannot_feed_a_value_input() {
    let mut graph = ExecutionGraph::new();
    let a = graph.add_node(node("a", source())).unwrap();
    let b = graph.add_node(node("b", sink())).unwrap();
    let c = graph.add_node(node("c", sink())).unwrap();
    graph.add_edge(a, b, EdgeData { endpoint_from: value(0), endpoint_to: value(0) }).unwrap();
    graph.add_edge(a, c, EdgeData { endpoint_from: value(0), endpoint_to: value(0) }).unwrap();
    assert_eq!(graph.check_graph_validity(), Err(()));
}

#[test]
fn cycle_is_valid_but_not_schedulable() {
    let mut graph = ExecutionGraph::new();
    let a = graph.add_node(node("a", relay())).unwrap();
    let b = graph.add_node(node("b", relay())).unwrap();
    graph.add_edge(a, b, EdgeData { endpoint_from: value(0), endpoint_to: value(0) }).unwrap();
    graph.add_edge(b, a, EdgeData { endpoint_from: value(0), endpoint_to: value(0) }).unwrap();
    assert_eq!(graph.check_graph_validity(), Ok(()));
    assert!(graph.create_schedule().is_err());
}

#[test]
fn update_schedule_counts_generations() {
    let mut graph = ExecutionGraph::new();
    let a = graph.add_node(node("a", source())).unwrap();
    assert!(graph.active_schedule.is_none());
    assert_eq!(graph.update_schedule(), Ok(()));
    assert_eq!(graph.active_schedule.as_ref().unwrap().generation, 0);
    assert_eq!(graph.update_schedule(), Ok(()));
    assert_eq!(graph.active_schedule.as_ref().unwrap().generation, 1);
    graph.add_edge(a, a, EdgeData { endpoint_from: value(0), endpoint_to: value(0) }).unwrap();
    assert_eq!(graph.update_schedule(), Err(()));
    assert!(graph.active_schedule.is_none());
}

#[test]
fn connections_follow_the_edges() {
    let mut graph = ExecutionGraph::new();
    let a = graph.add_node(node("a", source())).unwrap();
    let b = graph.add_node(node("b", sink())).unwrap();
    graph.add_edge(a, b, EdgeData { endpoint_from: value(0), endpoint_to: value(0) }).unwrap();
    let connections = graph.get_connections();
    assert_eq!(connections.len(), 1);
    let from = connections[0].from();
    let to = connections[0].to();
    assert_eq!(from.node_index, a);
    assert_eq!(from.channel_direction, ChannelDirection::Out);
    assert_eq!(to.node_index, b);
    assert_eq!(to.channel_direction, ChannelDirection::In);
}

#[test]
fn connection_from_identifiers_ignores_their_order() {
    let out = ChannelIdentifier {
        node_index: 1,
        channel_direction: ChannelDirection::Out,
        channel_index: 2,
        pass_by: ChannelPassBy::Value,
    };
    let inp = ChannelIdentifier {
        node_index: 3,
        channel_direction: ChannelDirection::In,
        channel_index: 0,
        pass_by: ChannelPassBy::SharedReference,
    };
    let c1 = Connection::try_from_identifiers([out, inp]).unwrap();
    let c2 = Connection::try_from_identifiers([inp, out]).unwrap();
    assert_eq!(c1, c2);
    assert_eq!(c1.from(), out);
    assert_eq!(c1.to(), inp);
    assert!(c1.contains_channel(out));
    assert!(c1.contains_channel(inp));
    assert!(Connection::try_from_identifiers([out, out]).is_none());
}

#[test]
fn reused_states_follow_the_nodes() {
    let mut graph = ExecutionGraph::new();
    let a = graph.add_node(node("a", source())).unwrap();
    let b = graph.add_node(node("b", sink())).unwrap();
    graph.add_edge(a, b, EdgeData { endpoint_from: value(0), endpoint_to: value(0) }).unwrap();
    let schedule = graph.create_schedule().unwrap();
    let previous = vec![Some(b), None, Some(a)];
    assert_eq!(reused_task_indices(&previous, &schedule), vec![Some(2), Some(0)]);
    assert_eq!(reused_task_indices(&vec![], &schedule), vec![None, None]);
}

#[test]
fn edge_data_sees_the_far_side() {
    let edge = EdgeData { endpoint_from: value(4), endpoint_to: shared(7) };
    assert_eq!(edge.get_channel_index(ChannelDirection::In), 4);
    assert_eq!(edge.get_channel_index(ChannelDirection::Out), 7);
    assert_eq!(edge.get_endpoint(ChannelDirection::Out), shared(7));
}

#[test]
fn references_from_disabled_nodes_are_not_followed() {
    let mut graph = ExecutionGraph::new();
    let a = graph
        .add_node(node(
            "a",
            NodeConfiguration::new()
                .with_borrow(Channel::new("x".to_string(), u32_ty()))
                .with_borrow_mut(Channel::new("y".to_string(), u32_ty())),
        ))
        .unwrap();
    let b = graph
        .add_node(node("b", NodeConfiguration::new().with_borrow_mut(Channel::new("z".to_string(), u32_ty()))))
        .unwrap();
    let mutable = EdgeEndpoint { channel_index: 0, pass_by: ChannelPassBy::MutableReference };
    graph.add_edge(a, b, EdgeData { endpoint_from: mutable, endpoint_to: mutable }).unwrap();
    assert_eq!(graph.check_graph_validity(), Ok(()));
    // `a` takes inputs and nothing is connected to it, so it is disabled; the reference that
    // `b` takes from it is never looked up.
    let schedule = graph.create_schedule().unwrap();
    assert_eq!(schedule.tasks.len(), 2);
    assert!(schedule.tasks[0].is_none());
    assert!(schedule.tasks[1].is_none());
}

#[test]
fn schedule_checks() {
    let mut graph = ExecutionGraph::new();
    let a = graph.add_node(node("a", source())).unwrap();
    let b = graph.add_node(node("b", relay())).unwrap();
    graph.add_edge(a, b, EdgeData { endpoint_from: value(0), endpoint_to: value(0) }).unwrap();
    assert!(graph.schedule_checks_pass());
    // An edge to a channel that the node does not have.
    let mut broken = ExecutionGraph::new();
    let x = broken.add_node(node("x", source())).unwrap();
    let y = broken.add_node(node("y", sink())).unwrap();
    broken.add_edge(x, y, EdgeData { endpoint_from: value(0), endpoint_to: value(3) }).unwrap();
    assert!(!broken.schedule_checks_pass());
    // A node that takes inputs both by reference and by value, with an edge into it.
    let mixed = graph
        .add_node(node(
            "mixed",
            NodeConfiguration::new()
                .with_borrow(Channel::new("x".to_string(), u32_ty()))
                .with_input_value(Channel::new("y".to_string(), u32_ty())),
        ))
        .unwrap();
    assert!(graph.schedule_checks_pass());
    graph.add_edge(b, mixed, EdgeData { endpoint_from: value(0), endpoint_to: value(0) }).unwrap();
    assert!(!graph.schedule_checks_pass());
}
