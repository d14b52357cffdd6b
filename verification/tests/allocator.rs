use dvsynth::graph::allocator::{AllocationType, Allocator};
use dvsynth::graph::execution::ExecutionGraph;
use dvsynth::graph::schedule::Schedule;
use dvsynth::graph::NodeData;
use dvsynth::node::behaviour::AllocatorHandle;
use dvsynth::node::ty::bytes::Bytes;
use dvsynth::node::ty::reference::{NodeStateRefcounter, OwnedRefMut, Refcounter};
use dvsynth::node::ty::{AllocationPointer, ListType, PrimitiveTypeEnum, TypeDesc, TypeEnum};
use dvsynth::node::{Channel, NodeConfiguration};

fn one_node_schedule() -> (Schedule, u32) {
    let mut graph = ExecutionGraph::new();
    let configuration =
        NodeConfiguration::new().with_output_value(Channel::new("out".to_string(), TypeEnum::Primitive(PrimitiveTypeEnum::U8)));
    let node = graph.add_node(NodeData { title: "n".to_string(), configuration }).unwrap();
    (graph.create_schedule().unwrap(), node)
}

fn u32_ty() -> TypeEnum {
    TypeEnum::Primitive(PrimitiveTypeEnum::U32)
}

#[test]
fn allocation_takes_free_slots_in_order() {
    let (schedule, node) = one_node_schedule();
    let mut allocator: Allocator<()> = Allocator::new();
    allocator.prepare_for_schedule(&schedule);
    let handle = AllocatorHandle::with_node_index(node);
    let first = allocator.allocate_bytes(u32_ty(), handle);
    let second = allocator.allocate_bytes(u32_ty(), handle);
    assert_eq!(first.index, 0);
    assert_eq!(second.index, 1);
    let (bytes, ty) = allocator.deref_ptr(first).unwrap();
    assert!(matches!(bytes, Bytes::Bytes(b) if b == &[0u8, 0, 0, 0][..]));
    assert_eq!(*ty, u32_ty());
    assert_eq!(allocator.pointer_ref(second), Some(&second));
    assert!(allocator.deref_ptr(AllocationPointer::new(500)).is_none());
}

#[test]
fn freed_slots_come_back_after_the_free_ones() {
    let (schedule, node) = one_node_schedule();
    let mut allocator: Allocator<()> = Allocator::new();
    allocator.prepare_for_schedule(&schedule);
    let handle = AllocatorHandle::with_node_index(node);
    let first = allocator.allocate_bytes(u32_ty(), handle);
    allocator.deallocate(first);
    let mut last = first;
    for _ in 0..63 {
        last = allocator.allocate_bytes(u32_ty(), handle);
    }
    assert_eq!(last.index, 63);
    let reused = allocator.allocate_bytes(u32_ty(), handle);
    assert_eq!(reused.index, 0);
}

#[test]
fn global_refcounts() {
    let (schedule, node) = one_node_schedule();
    let mut allocator: Allocator<()> = Allocator::new();
    allocator.prepare_for_schedule(&schedule);
    let ptr = allocator.allocate_bytes(u32_ty(), AllocatorHandle::with_node_index(node));
    assert_eq!(allocator.refcount_global_add(ptr, 2), Ok(false));
    assert_eq!(allocator.refcount_global_add(ptr, -1), Ok(false));
    assert_eq!(allocator.refcount_global_add(ptr, -1), Ok(true));
    assert_eq!(allocator.refcount_global_add(AllocationPointer::new(1000), 1), Err(()));
    assert_eq!(allocator.refcount_global_increase(ptr, usize::MAX), Err(()));
    assert_eq!(allocator.refcount_global_increase(AllocationPointer::new(1000), 1), Err(()));
}

#[test]
fn owned_refcounts_are_applied_after_the_task() {
    let (schedule, node) = one_node_schedule();
    let mut allocator: Allocator<()> = Allocator::new();
    allocator.prepare_for_schedule(&schedule);
    let handle = AllocatorHandle::with_node_index(node);
    let kept = allocator.allocate_bytes(u32_ty(), handle);
    let dropped = allocator.allocate_bytes(u32_ty(), handle);
    assert_eq!(allocator.refcount_owned_decrement(dropped, node), Ok(()));
    assert_eq!(allocator.refcount_owned_increment(kept, node), Ok(()));
    assert_eq!(allocator.apply_owned_and_output_refcounts(node, ()), Ok(()));
    assert_eq!(allocator.refcount_global_add(kept, -1), Ok(false));
    assert_eq!(allocator.refcount_global_add(kept, -1), Ok(true));
    let again = allocator.allocate_bytes(u32_ty(), handle);
    assert_eq!(again.index, 2);
    assert_eq!(allocator.refcount_owned_add(AllocationPointer::new(4000), node, 1), Ok(()));
    assert_eq!(allocator.apply_owned_and_output_refcounts(node, ()), Err(()));
}

#[test]
fn allocation_contents() {
    let mut data = AllocationType::<u32>::Object { ty_name: "counter", data: 5 };
    assert_eq!(data.object(), Some(&5));
    assert!(data.bytes().is_none());
    *data.object_mut().unwrap() = 6;
    assert_eq!(data.object(), Some(&6));
    let mut bytes = AllocationType::<u32>::Bytes(vec![1, 2]);
    bytes.bytes_mut().unwrap()[0] = 9;
    assert_eq!(bytes.bytes(), Some(&[9u8, 2][..]));
    assert!(matches!(bytes.as_ref(), Bytes::Bytes(b) if b == &[9u8, 2][..]));
}

#[test]
fn node_state_refcounter_counts_owned_references() {
    let (schedule, node) = one_node_schedule();
    let mut allocator: Allocator<()> = Allocator::new();
    allocator.prepare_for_schedule(&schedule);
    let ptr = allocator.allocate_bytes(u32_ty(), AllocatorHandle::with_node_index(node));
    let rc = NodeStateRefcounter(node);
    rc.refcount_increment(&mut allocator, ptr);
    rc.refcount_decrement(&mut allocator, ptr);
    rc.refcount_decrement(&mut allocator, ptr);
    ().refcount_increment(&mut allocator, ptr);
    // allocation (+1), increment (+1) and two decrements leave the value unowned: it is freed.
    assert_eq!(allocator.apply_owned_and_output_refcounts(node, ()), Ok(()));
    let again = allocator.allocate_bytes(u32_ty(), AllocatorHandle::with_node_index(node));
    assert_eq!(again.index, 1);
}

#[test]
fn owned_values() {
    let handle = AllocatorHandle::with_node_index(3);
    let zeroed = OwnedRefMut::zeroed_from_enum_if_sized(u32_ty(), handle).unwrap();
    assert_eq!(zeroed.bytes(), &[0u8, 0, 0, 0][..]);
    assert_eq!(*zeroed.ty(), u32_ty());
    assert_eq!(zeroed.refcounter().0, 3);
    let list = TypeEnum::List(ListType::new(u32_ty()));
    assert!(OwnedRefMut::zeroed_from_enum_if_sized(list.clone(), handle).is_none());
    assert!(OwnedRefMut::zeroed_from_enum_with_unchecked_type_if_sized(list.clone(), handle).is_none());
    let source: Bytes<'_, ()> = Bytes::Bytes(&[1, 2, 3, 4]);
    let copied = OwnedRefMut::copied_from(source, &u32_ty(), handle).unwrap();
    assert_eq!(copied.bytes(), &[1u8, 2, 3, 4][..]);
    assert!(OwnedRefMut::copied_from(Bytes::<()>::Bytes(&[]), &list, handle).is_none());
    let copied = copied.upcast();
    assert!(copied.downcast(&TypeDesc::Primitive(PrimitiveTypeEnum::U32)).is_some());
    let zeroed = OwnedRefMut::zeroed_from_enum_if_sized(u32_ty(), handle).unwrap();
    assert!(zeroed.downcast(&TypeDesc::Primitive(PrimitiveTypeEnum::U8)).is_none());
}

#[test]
fn allocation_has_refcount_one_once_applied() {
    let (schedule, node) = one_node_schedule();
    let mut allocator: Allocator<()> = Allocator::new();
    allocator.prepare_for_schedule(&schedule);
    let ptr = allocator.allocate_bytes(u32_ty(), AllocatorHandle::with_node_index(node));
    assert_eq!(allocator.apply_owned_and_output_refcounts(node, ()), Ok(()));
    // The one reference of the allocation is the last one: taking it away frees the value.
    assert_eq!(allocator.refcount_global_add(ptr, -1), Ok(true));
}

#[test]
fn refcounts_of_vacant_slots_are_refused() {
    let (schedule, node) = one_node_schedule();
    let mut allocator: Allocator<()> = Allocator::new();
    allocator.prepare_for_schedule(&schedule);
    let ptr = allocator.allocate_bytes(u32_ty(), AllocatorHandle::with_node_index(node));
    let other = allocator.allocate_bytes(u32_ty(), AllocatorHandle::with_node_index(node));
    allocator.deallocate(ptr);
    // The slot exists but holds nothing.
    assert_eq!(allocator.refcount_global_add(ptr, -1), Err(()));
    assert_eq!(allocator.refcount_global_add(ptr, 1), Err(()));
    assert_eq!(allocator.refcount_global_increase(ptr, 1), Err(()));
    // The slot of index 5 was added with the first 64 and never held a value.
    assert_eq!(allocator.refcount_global_add(AllocationPointer::new(5), 0), Err(()));
    // The task's owned reference to the freed value cannot be applied either.
    assert_eq!(allocator.apply_owned_and_output_refcounts(node, ()), Err(()));
    assert!(allocator.refcount_global_add(other, 1).is_ok());
}
