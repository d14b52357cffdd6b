//! Values owned by the state of a node, and the counting of the references they hold.

use vstd::prelude::*;

use crate::graph::allocator::{deltas_with_references, delta_or_zero, recordable_at, Allocator};
use crate::graph::NodeIndex;
use crate::node::behaviour::AllocatorHandle;

use super::bytes::Bytes;
use super::ptr::{flags_valid, pointers_in_value, pointers_of};
use super::{resolve, value_size, wf, AllocationPointer, TypeDesc, TypeEnum};

verus! {

/// Whether `allocator` can count one more owned reference to `ptr` for `node`.
pub open spec fn can_increment<O>(allocator: Allocator<O>, node: NodeIndex, ptr: AllocationPointer) -> bool {
    &&& allocator.has_counter(node)
    &&& delta_or_zero(allocator.deltas(node), ptr.index) < isize::MAX
}

/// Whether `allocator` can count one owned reference to `ptr` less for `node`.
pub open spec fn can_decrement<O>(allocator: Allocator<O>, node: NodeIndex, ptr: AllocationPointer) -> bool {
    &&& allocator.has_counter(node)
    &&& delta_or_zero(allocator.deltas(node), ptr.index) > isize::MIN
}

/// `after` is `before` with the owned refcount delta of `ptr` for `node` moved by `step`, and
/// nothing else changed.
pub open spec fn counted<O>(
    before: Allocator<O>,
    after: Allocator<O>,
    node: NodeIndex,
    ptr: AllocationPointer,
    step: int,
) -> bool {
    &&& after.slots() == before.slots()
    &&& after.free_list() == before.free_list()
    &&& after.used() == before.used()
    &&& forall|n: NodeIndex| #[trigger] after.has_counter(n) == before.has_counter(n)
    &&& forall|n: NodeIndex| n != node ==> #[trigger] after.deltas(n) == before.deltas(n)
    &&& after.deltas(node) == before.deltas(node).insert(
        ptr.index,
        (delta_or_zero(before.deltas(node), ptr.index) + step) as isize,
    )
}

/// Tracks the number of pointer references.
pub trait Refcounter {
    /// The node for which references are counted; `None` where nothing is tracked.
    spec fn counted_node(&self) -> Option<NodeIndex>;

    /// Counts one more reference to `ptr`.
    fn refcount_increment<O>(&self, allocator: &mut Allocator<O>, ptr: AllocationPointer)
        requires
            self.counted_node() matches Some(n) ==> can_increment(*old(allocator), n, ptr),
        ensures
            old(allocator).wf() ==> final(allocator).wf(),
            self.counted_node() is None ==> *final(allocator) == *old(allocator),
            self.counted_node() matches Some(n) ==> counted(*old(allocator), *final(allocator), n, ptr, 1),
    ;

    /// Counts one reference to `ptr` less.
    fn refcount_decrement<O>(&self, allocator: &mut Allocator<O>, ptr: AllocationPointer)
        requires
            self.counted_node() matches Some(n) ==> can_decrement(*old(allocator), n, ptr),
        ensures
            old(allocator).wf() ==> final(allocator).wf(),
            self.counted_node() is None ==> *final(allocator) == *old(allocator),
            self.counted_node() matches Some(n) ==> counted(*old(allocator), *final(allocator), n, ptr, -1),
    ;
}

/// A refcounter that does not track anything.
impl Refcounter for () {
    open spec fn counted_node(&self) -> Option<NodeIndex> {
        None
    }

    fn refcount_increment<O>(&self, allocator: &mut Allocator<O>, ptr: AllocationPointer) {
    }

    fn refcount_decrement<O>(&self, allocator: &mut Allocator<O>, ptr: AllocationPointer) {
    }
}

/// Tracks the number of references stored in the state of a node.
#[derive(Clone, Copy, Debug)]
pub struct NodeStateRefcounter(pub NodeIndex);

impl Refcounter for NodeStateRefcounter {
    open spec fn counted_node(&self) -> Option<NodeIndex> {
        Some(self.0)
    }

    fn refcount_increment<O>(&self, allocator: &mut Allocator<O>, ptr: AllocationPointer) {
        let _ = allocator.refcount_owned_increment(ptr, self.0);
    }

    fn refcount_decrement<O>(&self, allocator: &mut Allocator<O>, ptr: AllocationPointer) {
        let _ = allocator.refcount_owned_decrement(ptr, self.0);
    }
}

/// A value owned by the state of a node: its type, its bytes, and the refcounter of that node.
pub struct OwnedRefMut {
    ty: TypeEnum,
    bytes: Vec<u8>,
    rc: NodeStateRefcounter,
}

impl OwnedRefMut {
    /// The type of the value.
    pub closed spec fn spec_ty(self) -> TypeEnum {
        self.ty
    }

    /// The bytes of the value.
    pub closed spec fn spec_bytes(self) -> Seq<u8> {
        self.bytes@
    }

    /// The node whose state owns the value.
    pub closed spec fn spec_node(self) -> NodeIndex {
        self.rc.0
    }

    /// A zeroed value of type `ty` owned by the node of `handle`; `None` where `ty` is unsized.
    pub fn zeroed_from_enum_if_sized(ty: TypeEnum, handle: AllocatorHandle) -> (r: Option<Self>)
        requires
            wf(ty),
        ensures
            r is Some <==> value_size(ty) is Some,
            r matches Some(o) ==> {
                &&& o.spec_ty() == ty
                &&& o.spec_bytes() == Seq::new(value_size(ty)->0, |i: int| 0u8)
                &&& o.spec_node() == handle.node
            },
    {
        match ty.value_size_if_sized() {
            Some(size) => {
                let bytes = vec![0u8; size];
                assert(bytes@ == Seq::new(value_size(ty)->0, |i: int| 0u8));
                Some(OwnedRefMut { ty, bytes, rc: NodeStateRefcounter(handle.node) })
            },
            None => None,
        }
    }

    /// Like `zeroed_from_enum_if_sized`; the type is not checked against the one that the
    /// caller expects.
    pub fn zeroed_from_enum_with_unchecked_type_if_sized(ty: TypeEnum, handle: AllocatorHandle) -> (r:
        Option<Self>)
        requires
            wf(ty),
        ensures
            r is Some <==> value_size(ty) is Some,
            r matches Some(o) ==> {
                &&& o.spec_ty() == ty
                &&& o.spec_bytes() == Seq::new(value_size(ty)->0, |i: int| 0u8)
                &&& o.spec_node() == handle.node
            },
    {
        Self::zeroed_from_enum_if_sized(ty, handle)
    }

    /// A copy of the value of type `ty` held in `bytes`, owned by the node of `handle`; `None`
    /// where `ty` is unsized.
    pub fn copied_from<O>(bytes: Bytes<'_, O>, ty: &TypeEnum, handle: AllocatorHandle) -> (r: Option<Self>)
        requires
            wf(*ty),
            value_size(*ty) matches Some(s) ==> (bytes is Bytes && bytes->Bytes_0@.len() == s),
        ensures
            r is Some <==> value_size(*ty) is Some,
            r matches Some(o) ==> {
                &&& o.spec_ty() == *ty
                &&& o.spec_bytes() == bytes->Bytes_0@
                &&& o.spec_node() == handle.node
            },
    {
        match Self::zeroed_from_enum_if_sized(ty.clone(), handle) {
            Some(mut owned) => {
                let src = bytes.bytes().unwrap();
                let mut i: usize = 0;
                while i < src.len()
                    invariant
                        i <= src@.len(),
                        owned.bytes@.len() == src@.len(),
                        forall|k: int| 0 <= k < i ==> owned.bytes@[k] == src@[k],
                        owned.ty == *ty,
                        owned.rc.0 == handle.node,
                    decreases src@.len() - i,
                {
                    owned.bytes.set(i, src[i]);
                    i = i + 1;
                }
                assert(owned.bytes@ == bytes->Bytes_0@);
                Some(owned)
            },
            None => None,
        }
    }

    /// A copy of the value of type `ty` held in `bytes`, owned by the node of `handle`, which
    /// counts one owned reference for each pointer the copy holds; `None`, counting nothing,
    /// where `ty` is unsized. The type is not checked against the one that the caller expects.
    pub fn copied_with_unchecked_type_if_sized<O, P>(
        bytes: Bytes<'_, P>,
        ty: &TypeEnum,
        handle: AllocatorHandle,
        allocator: &mut Allocator<O>,
    ) -> (r: Option<Self>)
        requires
            wf(*ty),
            value_size(*ty) matches Some(s) ==> {
                &&& bytes is Bytes
                &&& bytes->Bytes_0@.len() == s
                &&& flags_valid(*ty, bytes->Bytes_0@)
                &&& old(allocator).has_counter(handle.node)
                &&& forall|k: u64|
                    #[trigger] recordable_at(
                        old(allocator).deltas(handle.node),
                        pointers_of(*ty, bytes->Bytes_0@),
                        Seq::empty(),
                        k,
                    )
            },
        ensures
            r is Some <==> value_size(*ty) is Some,
            r is None ==> *final(allocator) == *old(allocator),
            r matches Some(o) ==> {
                &&& o.spec_ty() == *ty
                &&& o.spec_bytes() == bytes->Bytes_0@
                &&& o.spec_node() == handle.node
                &&& old(allocator).wf() ==> final(allocator).wf()
                &&& final(allocator).slots() == old(allocator).slots()
                &&& final(allocator).free_list() == old(allocator).free_list()
                &&& final(allocator).used() == old(allocator).used()
                &&& forall|n: NodeIndex| #[trigger] final(allocator).has_counter(n) == old(allocator).has_counter(n)
                &&& forall|n: NodeIndex|
                    n != handle.node ==> #[trigger] final(allocator).deltas(n) == old(allocator).deltas(n)
                &&& final(allocator).deltas(handle.node) == deltas_with_references(
                    old(allocator).deltas(handle.node),
                    pointers_of(*ty, bytes->Bytes_0@),
                    Seq::empty(),
                )
            },
    {
        match Self::copied_from(bytes, ty, handle) {
            Some(owned) => {
                let held = pointers_in_value(&owned.ty, Bytes::<P>::Bytes(owned.bytes.as_slice())).unwrap();
                let none: Vec<AllocationPointer> = Vec::new();
                assert(none@ =~= Seq::<AllocationPointer>::empty());
                allocator.record_task_references(handle.node, &held, &none);
                Some(owned)
            },
            None => None,
        }
    }

    /// The value itself, where its type resolves concretely against `desc`.
    pub fn downcast(self, desc: &TypeDesc) -> (r: Option<Self>)
        ensures
            r is Some <==> resolve(*desc, self.spec_ty()) == Some(true),
            r matches Some(o) ==> o == self,
    {
        if self.ty.downcast_ref(desc).is_some() {
            Some(self)
        } else {
            None
        }
    }

    /// The value itself, with the static type forgotten.
    pub fn upcast(self) -> (r: Self)
        ensures
            r == self,
    {
        self
    }

    /// The type of the value.
    pub fn ty(&self) -> (r: &TypeEnum)
        ensures
            *r == self.spec_ty(),
    {
        &self.ty
    }

    /// The bytes of the value.
    pub fn bytes(&self) -> (r: &[u8])
        ensures
            r@ == self.spec_bytes(),
    {
        self.bytes.as_slice()
    }

    /// The refcounter of the node whose state owns the value.
    pub fn refcounter(&self) -> (r: NodeStateRefcounter)
        ensures
            r.0 == self.spec_node(),
    {
        self.rc
    }
}

} // verus!
