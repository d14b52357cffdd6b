use dvsynth::graph::allocator::Allocator;
use dvsynth::graph::execution::ExecutionGraph;
use dvsynth::graph::run::task_input_values;
use dvsynth::graph::schedule::{Schedule, Task, TaskInput};
use dvsynth::graph::NodeData;
use dvsynth::node::behaviour::{build_list, AllocatorHandle};
use dvsynth::node::ty::bytes::Bytes;
use dvsynth::node::ty::ptr::pointers_in_value;
use dvsynth::node::ty::{AllocationPointer, ArrayType, ListType, OptionType, PrimitiveTypeEnum, Shared, TypeEnum, Unique};
use dvsynth::node::{Channel, NodeConfiguration};

fn task(inputs: Vec<TaskInput>) -> Task {
    Task {
        node_index: 7,
        configuration: NodeConfiguration::new(),
        borrows: Vec::new(),
        mutable_borrows: Vec::new(),
        inputs,
    }
}

fn unique_u8() -> TypeEnum {
    TypeEnum::Unique(Unique::new(TypeEnum::List(ListType::new(TypeEnum::Primitive(PrimitiveTypeEnum::U8)))))
}

fn one_node_schedule() -> (Schedule, u32) {
    let mut graph = ExecutionGraph::new();
    let configuration = NodeConfiguration::new()
        .with_output_value(Channel::new("out".to_string(), TypeEnum::Primitive(PrimitiveTypeEnum::U8)));
    let node = graph.add_node(NodeData { title: "n".to_string(), configuration }).unwrap();
    (graph.create_schedule().unwrap(), node)
}

#[test]
fn inputs_are_resolved_to_earlier_outputs() {
    let outputs: Vec<Option<Vec<u64>>> = vec![Some(vec![1, 2]), None, Some(vec![3])];
    let reads_enabled = task(vec![
        TaskInput { task_index: 2, output_value_channel_index: 0 },
        TaskInput { task_index: 0, output_value_channel_index: 1 },
    ]);
    assert_eq!(task_input_values(&outputs, &reads_enabled), Some(vec![(2, 0), (0, 1)]));
    let reads_disabled = task(vec![
        TaskInput { task_index: 0, output_value_channel_index: 0 },
        TaskInput { task_index: 1, output_value_channel_index: 0 },
    ]);
    assert_eq!(task_input_values(&outputs, &reads_disabled), None);
    assert_eq!(task_input_values(&outputs, &task(Vec::new())), Some(Vec::new()));
}

#[test]
fn a_unique_pointer_value_holds_itself() {
    let bytes = [5u8, 1, 0, 0, 0, 0, 0, 0];
    let found = pointers_in_value(&unique_u8(), Bytes::<()>::Bytes(&bytes[..]));
    assert_eq!(found, Some(vec![AllocationPointer::new(261)]));
    let shared = TypeEnum::Shared(Shared::new(TypeEnum::Primitive(PrimitiveTypeEnum::U8)));
    assert_eq!(pointers_in_value(&shared, Bytes::<()>::Bytes(&bytes[..])), Some(Vec::new()));
    let plain = TypeEnum::Primitive(PrimitiveTypeEnum::U64);
    assert_eq!(pointers_in_value(&plain, Bytes::<()>::Bytes(&bytes[..])), Some(Vec::new()));
}

#[test]
fn pointers_inside_options_and_arrays() {
    let option = TypeEnum::Option(OptionType::new(unique_u8()));
    let some = [9u8, 0, 0, 0, 0, 0, 0, 0, 1];
    let none = [9u8, 0, 0, 0, 0, 0, 0, 0, 0];
    let malformed = [9u8, 0, 0, 0, 0, 0, 0, 0, 2];
    assert_eq!(pointers_in_value(&option, Bytes::<()>::Bytes(&some[..])), Some(vec![AllocationPointer::new(9)]));
    assert_eq!(pointers_in_value(&option, Bytes::<()>::Bytes(&none[..])), Some(Vec::new()));
    assert_eq!(pointers_in_value(&option, Bytes::<()>::Bytes(&malformed[..])), None);
    let array = TypeEnum::Array(ArrayType::new(unique_u8(), 2));
    let two = [3u8, 0, 0, 0, 0, 0, 0, 0, 4, 0, 0, 0, 0, 0, 0, 0];
    assert_eq!(
        pointers_in_value(&array, Bytes::<()>::Bytes(&two[..])),
        Some(vec![AllocationPointer::new(3), AllocationPointer::new(4)])
    );
}

#[test]
fn task_references_are_counted_before_they_are_applied() {
    let (schedule, node) = one_node_schedule();
    let mut allocator: Allocator<()> = Allocator::new();
    allocator.prepare_for_schedule(&schedule);
    let handle = AllocatorHandle::with_node_index(node);
    let u32_ty = TypeEnum::Primitive(PrimitiveTypeEnum::U32);
    let written = allocator.allocate_bytes(u32_ty.clone(), handle);
    let read = allocator.allocate_bytes(u32_ty, handle);
    // The written value is handed on twice; the value read is given up.
    allocator.record_task_references(node, &vec![written, written], &vec![read]);
    assert!(allocator.refcounts_applicable(node));
    assert_eq!(allocator.apply_owned_and_output_refcounts(node, ()), Ok(()));
    // The read value had one reference, from its allocation, and is freed.
    assert_eq!(allocator.refcount_global_add(read, 1), Err(()));
    // The written value holds three references.
    assert_eq!(allocator.refcount_global_add(written, -2), Ok(false));
    assert_eq!(allocator.refcount_global_add(written, -1), Ok(true));
    assert!(!allocator.refcounts_applicable(node + 1));
}

#[test]
fn allocation_continues_after_the_first_slots() {
    let (schedule, node) = one_node_schedule();
    let mut allocator: Allocator<()> = Allocator::new();
    allocator.prepare_for_schedule(&schedule);
    let handle = AllocatorHandle::with_node_index(node);
    let u32_ty = TypeEnum::Primitive(PrimitiveTypeEnum::U32);
    let mut last = allocator.allocate_bytes(u32_ty.clone(), handle);
    for _ in 0..64 {
        last = allocator.allocate_bytes(u32_ty.clone(), handle);
    }
    // The 65th allocation takes the first slot of the second expansion, not a live one.
    assert_eq!(last.index, 64);
    assert_eq!(allocator.refcount_global_add(AllocationPointer::new(0), 1), Ok(false));
}

#[test]
fn a_list_is_built_from_the_inputs() {
    let first = [1u8, 0];
    let second = [2u8, 3];
    let inputs: Vec<&[u8]> = vec![&first[..], &second[..]];
    let list = build_list(PrimitiveTypeEnum::U16, &inputs);
    assert_eq!(list.data, vec![1, 0, 2, 3]);
    assert_eq!(list.item_size, 2);
    assert_eq!(list.descriptor.child_ty, TypeEnum::Primitive(PrimitiveTypeEnum::U16));
    let empty = build_list(PrimitiveTypeEnum::U8, &Vec::new());
    assert!(empty.data.is_empty());
}
