use dvsynth::graph::allocator::Allocator;
use dvsynth::graph::execution::ExecutionGraph;
use dvsynth::graph::schedule::Schedule;
use dvsynth::graph::NodeData;
use dvsynth::node::behaviour::AllocatorHandle;
use dvsynth::node::ty::assign::{assign_value, swap_values};
use dvsynth::node::ty::bytes::Bytes;
use dvsynth::node::ty::reference::OwnedRefMut;
use dvsynth::node::ty::{ArrayType, ListType, OptionType, PrimitiveTypeEnum, TypeEnum, Unique};
use dvsynth::node::{Channel, NodeConfiguration};

fn one_node_schedule() -> (Schedule, u32) {
    let mut graph = ExecutionGraph::new();
    let configuration =
        NodeConfiguration::new().with_output_value(Channel::new("out".to_string(), prim(PrimitiveTypeEnum::U8)));
    let node = graph.add_node(NodeData { title: "n".to_string(), configuration }).unwrap();
    (graph.create_schedule().unwrap(), node)
}

fn prim(p: PrimitiveTypeEnum) -> TypeEnum {
    TypeEnum::Primitive(p)
}

#[test]
fn compatible_values_are_swapped() {
    let ty = prim(PrimitiveTypeEnum::U16);
    let mut a = [1u8, 2];
    let mut b = [3u8, 4];
    assert_eq!(swap_values(&ty, &mut a, &ty, &mut b), Ok(()));
    assert_eq!(a, [3, 4]);
    assert_eq!(b, [1, 2]);
    assert_eq!(swap_values(&ty, &mut a, &ty, &mut b), Ok(()));
    assert_eq!(a, [1, 2]);
    assert_eq!(b, [3, 4]);
    let array = TypeEnum::Array(ArrayType::new(prim(PrimitiveTypeEnum::U8), 2));
    assert_eq!(assign_value(&ty, &mut a, &array, &mut b), Ok(()));
    assert_eq!(a, [3, 4]);
    assert_eq!(b, [1, 2]);
}

#[test]
fn incompatible_values_stay() {
    let mut a = [1u8, 2];
    let mut b = [3u8];
    let wide = prim(PrimitiveTypeEnum::U16);
    let narrow = prim(PrimitiveTypeEnum::U8);
    assert_eq!(swap_values(&wide, &mut a, &narrow, &mut b), Err(()));
    assert_eq!(a, [1, 2]);
    assert_eq!(b, [3]);
}

#[test]
fn taking_the_value_of_an_option_empties_it() {
    let (schedule, node) = one_node_schedule();
    let mut allocator: Allocator<()> = Allocator::new();
    allocator.prepare_for_schedule(&schedule);
    let handle = AllocatorHandle::with_node_index(node);
    let option = OptionType::new(prim(PrimitiveTypeEnum::U16));
    let mut data = [7u8, 1, 1];
    let taken = option.take(&mut data, handle, &mut allocator).unwrap();
    assert_eq!(taken.bytes(), &[7u8, 1][..]);
    assert_eq!(*taken.ty(), prim(PrimitiveTypeEnum::U16));
    assert_eq!(taken.refcounter().0, node);
    assert_eq!(data, [7, 1, 0]);
    assert!(option.take(&mut data, handle, &mut allocator).is_none());
    assert_eq!(data, [7, 1, 0]);
}

#[test]
fn a_taken_pointer_is_counted_for_its_new_owner() {
    let (schedule, node) = one_node_schedule();
    let mut allocator: Allocator<()> = Allocator::new();
    allocator.prepare_for_schedule(&schedule);
    let handle = AllocatorHandle::with_node_index(node);
    let target = allocator.allocate_bytes(prim(PrimitiveTypeEnum::U8), handle);
    assert_eq!(target.index, 0);
    let pointer = TypeEnum::Unique(Unique::new(TypeEnum::List(ListType::new(prim(PrimitiveTypeEnum::U8)))));
    let option = OptionType::new(pointer.clone());
    let mut data = [0u8, 0, 0, 0, 0, 0, 0, 0, 1];
    let taken = option.take(&mut data, handle, &mut allocator).unwrap();
    assert_eq!(*taken.ty(), pointer);
    // The allocation counts one owned reference and the taken copy another.
    assert_eq!(allocator.apply_owned_and_output_refcounts(node, ()), Ok(()));
    assert_eq!(allocator.refcount_global_add(target, -1), Ok(false));
    assert_eq!(allocator.refcount_global_add(target, -1), Ok(true));
}

#[test]
fn a_copy_counts_the_references_it_holds() {
    let (schedule, node) = one_node_schedule();
    let mut allocator: Allocator<()> = Allocator::new();
    allocator.prepare_for_schedule(&schedule);
    let handle = AllocatorHandle::with_node_index(node);
    let target = allocator.allocate_bytes(prim(PrimitiveTypeEnum::U8), handle);
    let pointer = TypeEnum::Unique(Unique::new(prim(PrimitiveTypeEnum::U8)));
    let source = [0u8; 8];
    let copy =
        OwnedRefMut::copied_with_unchecked_type_if_sized(Bytes::<()>::Bytes(&source[..]), &pointer, handle, &mut allocator)
            .unwrap();
    assert_eq!(copy.bytes(), &source[..]);
    assert_eq!(allocator.apply_owned_and_output_refcounts(node, ()), Ok(()));
    assert_eq!(allocator.refcount_global_add(target, -1), Ok(false));
    let list = TypeEnum::List(ListType::new(prim(PrimitiveTypeEnum::U8)));
    assert!(OwnedRefMut::copied_with_unchecked_type_if_sized(Bytes::<()>::Bytes(&[]), &list, handle, &mut allocator)
        .is_none());
}
