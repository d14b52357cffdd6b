//! The allocator of dynamically sized channel values. Values live in slots addressed by
//! allocation pointers; freed slots are handed out again in the order in which they were
//! freed. Each allocation carries a global refcount, and each task collects the changes it
//! makes to the refcounts of the values it owns until they are applied after it has run.

use vstd::prelude::*;

use std::collections::{HashMap, VecDeque};
use vstd::std_specs::iter::IteratorSpec;

use crate::node::ty::bytes::{Bytes, BytesMut};
use crate::node::ty::{value_size, wf, AllocationPointer, TypeEnum};

use crate::node::behaviour::AllocatorHandle;

use super::schedule::{Schedule, Task};
use super::NodeIndex;

verus! {

/// The number of slots added whenever no free slot is left.
pub const EXPAND_BY: usize = 64;

/// Counts the changes to refcounts that happen during a single invocation of a task.
/// These changes are then applied to the total refcount after the task has finished executing.
pub struct TaskRefCounter {
    /// The change of each refcount, by the index of the allocation pointer.
    pub refcount_deltas: HashMap<u64, isize>,
}

/// The refcount changes of every task of the current schedule, by node.
pub struct TaskRefCounters {
    pub counters: HashMap<NodeIndex, TaskRefCounter>,
}

impl TaskRefCounter {
    pub fn new() -> (r: Self)
        ensures
            r.refcount_deltas@ == Map::<u64, isize>::empty(),
    {
        TaskRefCounter { refcount_deltas: HashMap::new() }
    }
}

impl TaskRefCounters {
    pub fn new() -> (r: Self)
        ensures
            r.counters@ == Map::<NodeIndex, TaskRefCounter>::empty(),
    {
        TaskRefCounters { counters: HashMap::new() }
    }
}

impl AllocationPointer {
    pub fn new(index: u64) -> (r: Self)
        ensures
            r.index == index,
    {
        AllocationPointer { index }
    }

    pub fn as_u64(&self) -> (r: u64)
        ensures
            r == self.index,
    {
        self.index
    }

    pub fn as_usize(&self) -> (r: usize)
        ensures
            r == self.index as usize,
    {
        self.index as usize
    }
}

/// The contents of an allocation: plain bytes, or an object of a type that is not laid out
/// as bytes.
pub enum AllocationType<O> {
    Bytes(Vec<u8>),
    Object { ty_name: &'static str, data: O },
}

impl<O> AllocationType<O> {
    pub fn bytes(&self) -> (r: Option<&[u8]>)
        ensures
            r is Some <==> self is Bytes,
            r matches Some(b) ==> b@ == self->Bytes_0@,
    {
        match self {
            AllocationType::Bytes(inner) => Some(inner.as_slice()),
            _ => None,
        }
    }

    pub fn object(&self) -> (r: Option<&O>)
        ensures
            r is Some <==> self is Object,
            r matches Some(d) ==> *d == self->data,
    {
        match self {
            AllocationType::Object { data, .. } => Some(data),
            _ => None,
        }
    }

    pub fn bytes_mut(&mut self) -> (r: Option<&mut [u8]>)
        ensures
            r is Some <==> *old(self) is Bytes,
            r matches Some(b) ==> b@ == old(self)->Bytes_0@ && *final(self) is Bytes && final(self)->Bytes_0@ == final(b)@,
            *old(self) is Object ==> *final(self) == *old(self),
    {
        match self {
            AllocationType::Bytes(inner) => Some(inner.as_mut_slice()),
            _ => None,
        }
    }

    pub fn object_mut(&mut self) -> (r: Option<&mut O>)
        ensures
            r is Some <==> *old(self) is Object,
            r matches Some(d) ==> *d == old(self)->data && *final(self) == (AllocationType::Object {
                ty_name: old(self)->ty_name,
                data: *final(d),
            }),
            *old(self) is Bytes ==> *final(self) == *old(self),
    {
        match self {
            AllocationType::Object { data, .. } => Some(data),
            _ => None,
        }
    }

    /// A shared view of the contents.
    pub fn as_ref(&self) -> (r: Bytes<'_, O>)
        ensures
            r is Bytes <==> self is Bytes,
            r matches Bytes::Bytes(b) ==> b@ == self->Bytes_0@,
            r matches Bytes::Object { ty_name, data } ==> ty_name == self->ty_name && *data
                == self->data,
    {
        match self {
            AllocationType::Bytes(inner) => Bytes::Bytes(inner.as_slice()),
            AllocationType::Object { ty_name, data } => Bytes::Object { ty_name: *ty_name, data },
        }
    }

    /// A mutable view of the contents.
    pub fn as_mut(&mut self) -> (r: BytesMut<'_, O>)
        ensures
            r is Bytes <==> *old(self) is Bytes,
            r matches BytesMut::Bytes(b) ==> b@ == old(self)->Bytes_0@ && *final(self) is Bytes
                && final(self)->Bytes_0@ == final(b)@,
            r matches BytesMut::Object { ty_name, data } ==> ty_name == old(self)->ty_name && *data
                == old(self)->data && *final(self) == (AllocationType::Object {
                ty_name,
                data: *final(data),
            }),
    {
        match self {
            AllocationType::Bytes(inner) => BytesMut::Bytes(inner.as_mut_slice()),
            AllocationType::Object { ty_name, data } => BytesMut::Object { ty_name: *ty_name, data },
        }
    }
}

/// An allocated value together with its type and the pointer it was allocated under.
pub struct AllocationInner<O> {
    ty: TypeEnum,
    inner: AllocationType<O>,
    ptr: AllocationPointer,
}

impl<O> AllocationInner<O> {
    pub closed spec fn spec_ty(self) -> TypeEnum {
        self.ty
    }

    pub closed spec fn spec_inner(self) -> AllocationType<O> {
        self.inner
    }

    pub closed spec fn spec_ptr(self) -> AllocationPointer {
        self.ptr
    }

    /// A zeroed value of a sized type.
    pub fn new_bytes(ty: TypeEnum, ptr: AllocationPointer) -> (r: Self)
        requires
            wf(ty),
            value_size(ty) is Some,
        ensures
            r.spec_ty() == ty,
            r.spec_ptr() == ptr,
            r.spec_inner() is Bytes,
            r.spec_inner()->Bytes_0@ == Seq::new(value_size(ty)->0, |i: int| 0u8),
    {
        let size = ty.value_size_if_sized().unwrap();
        let data: Vec<u8> = vec![0u8; size];
        assert(data@ == Seq::new(value_size(ty)->0, |i: int| 0u8));
        AllocationInner { ty, inner: AllocationType::Bytes(data), ptr }
    }

    /// An object of the type named `ty_name`.
    pub fn new_object(data: O, ty_name: &'static str, ty: TypeEnum, ptr: AllocationPointer) -> (r: Self)
        ensures
            r.spec_ty() == ty,
            r.spec_ptr() == ptr,
            r.spec_inner() == (AllocationType::Object { ty_name, data }),
    {
        AllocationInner { ty, inner: AllocationType::Object { ty_name, data }, ptr }
    }

    pub fn ty(&self) -> (r: &TypeEnum)
        ensures
            *r == self.spec_ty(),
    {
        &self.ty
    }

    pub fn ty_mut(&mut self) -> (r: &mut TypeEnum)
        ensures
            *r == old(self).spec_ty(),
            final(self).spec_ty() == *final(r),
            final(self).spec_inner() == old(self).spec_inner(),
            final(self).spec_ptr() == old(self).spec_ptr(),
    {
        &mut self.ty
    }

    pub fn inner_mut(&mut self) -> (r: &mut AllocationType<O>)
        ensures
            *r == old(self).spec_inner(),
            final(self).spec_inner() == *final(r),
            final(self).spec_ty() == old(self).spec_ty(),
            final(self).spec_ptr() == old(self).spec_ptr(),
    {
        &mut self.inner
    }

    pub fn inner(&self) -> (r: &AllocationType<O>)
        ensures
            *r == self.spec_inner(),
    {
        &self.inner
    }

    pub fn ptr(&self) -> (r: &AllocationPointer)
        ensures
            *r == self.spec_ptr(),
    {
        &self.ptr
    }
}

/// A slot of the allocator: the value it holds, if any, and its refcount.
pub struct Allocation<O> {
    pub inner: Option<AllocationInner<O>>,
    pub refcount: usize,
    pub deallocating: bool,
}

/// A slot that holds nothing.
pub open spec fn vacant_slot<O>() -> Allocation<O> {
    Allocation { inner: None, refcount: 0, deallocating: true }
}

impl<O> Allocation<O> {
    pub fn new() -> (r: Self)
        ensures
            r == vacant_slot::<O>(),
    {
        Allocation { inner: None, refcount: 0, deallocating: true }
    }

    fn claim_with(&mut self, new_inner: AllocationInner<O>)
        requires
            old(self).inner is None,
        ensures
            *final(self) == (Allocation { inner: Some(new_inner), refcount: 0, deallocating: false }),
    {
        self.inner = Some(new_inner);
        self.refcount = 0;
        self.deallocating = false;
    }

    fn free(&mut self)
        ensures
            *final(self) == vacant_slot::<O>(),
    {
        self.inner = None;
        self.refcount = 0;
        self.deallocating = true;
    }
}

/// The refcount after `delta` was added to it: an increase wraps around, a decrease stops at
/// zero.
pub open spec fn refcount_after(refcount: usize, delta: isize) -> usize {
    if delta > 0 {
        if refcount + delta > usize::MAX {
            (refcount + delta - usize::MAX - 1) as usize
        } else {
            (refcount + delta) as usize
        }
    } else if refcount + delta >= 0 {
        (refcount + delta) as usize
    } else {
        0
    }
}

/// `index` names a slot of `slots` that holds a value.
pub open spec fn names_live<O>(slots: Seq<Allocation<O>>, index: u64) -> bool {
    index < slots.len() && slots[index as int].inner is Some
}

/// Adding `delta` to the refcount of `a` frees it.
pub open spec fn frees<O>(a: Allocation<O>, delta: isize) -> bool {
    delta <= 0 && refcount_after(a.refcount, delta) == 0 && !a.deallocating
}

/// The slot `a` after `delta` was added to its refcount.
pub open spec fn after_add<O>(a: Allocation<O>, delta: isize) -> Allocation<O> {
    if frees(a, delta) {
        vacant_slot()
    } else {
        Allocation { inner: a.inner, refcount: refcount_after(a.refcount, delta), deallocating: a.deallocating }
    }
}

/// `pairs` lists each entry of `deltas` once.
pub open spec fn lists_deltas(pairs: Seq<(u64, isize)>, deltas: Map<u64, isize>) -> bool {
    &&& forall|i: int, j: int| 0 <= i < j < pairs.len() ==> pairs[i].0 != pairs[j].0
    &&& forall|i: int|
        0 <= i < pairs.len() ==> deltas.contains_key(#[trigger] pairs[i].0) && deltas[pairs[i].0]
            == pairs[i].1
    &&& forall|k: u64| #[trigger] deltas.contains_key(k) ==> exists|i: int| 0 <= i < pairs.len() && pairs[i].0 == k
}

/// The slots after the deltas of `pairs` were added one after the other; a delta for an
/// index without a slot changes nothing.
pub open spec fn slots_after<O>(slots: Seq<Allocation<O>>, pairs: Seq<(u64, isize)>) -> Seq<Allocation<O>>
    decreases pairs.len(),
{
    if pairs.len() == 0 {
        slots
    } else {
        let prev = slots_after(slots, pairs.drop_last());
        let k = pairs.last().0;
        if k < prev.len() {
            prev.update(k as int, after_add(prev[k as int], pairs.last().1))
        } else {
            prev
        }
    }
}

/// The indices freed while the deltas of `pairs` were added one after the other, in order.
pub open spec fn freed_in<O>(slots: Seq<Allocation<O>>, pairs: Seq<(u64, isize)>) -> Seq<u64>
    decreases pairs.len(),
{
    if pairs.len() == 0 {
        Seq::empty()
    } else {
        let prev = slots_after(slots, pairs.drop_last());
        let k = pairs.last().0;
        freed_in(slots, pairs.drop_last()) + if k < prev.len() && frees(prev[k as int], pairs.last().1) {
            seq![k]
        } else {
            Seq::empty()
        }
    }
}

/// The delta that `pairs` lists last for index `i`, if any.
pub open spec fn delta_for(pairs: Seq<(u64, isize)>, i: u64) -> Option<isize>
    decreases pairs.len(),
{
    if pairs.len() == 0 {
        None
    } else if pairs.last().0 == i {
        Some(pairs.last().1)
    } else {
        delta_for(pairs.drop_last(), i)
    }
}

/// Adding deltas keeps the number of slots, and changes each slot by its own delta only.
pub proof fn lemma_slots_after<O>(slots: Seq<Allocation<O>>, pairs: Seq<(u64, isize)>)
    requires
        forall|i: int, j: int| 0 <= i < j < pairs.len() ==> pairs[i].0 != pairs[j].0,
        slots.len() <= usize::MAX,
    ensures
        slots_after(slots, pairs).len() == slots.len(),
        forall|i: int|
            0 <= i < slots.len() ==> #[trigger] slots_after(slots, pairs)[i] == match delta_for(
                pairs,
                i as u64,
            ) {
                Some(d) => after_add(slots[i], d),
                None => slots[i],
            },
    decreases pairs.len(),
{
    if pairs.len() > 0 {
        let rest = pairs.drop_last();
        lemma_slots_after(slots, rest);
        let k = pairs.last().0;
        assert forall|i: int| 0 <= i < slots.len() implies #[trigger] slots_after(slots, pairs)[i]
            == match delta_for(pairs, i as u64) {
            Some(d) => after_add(slots[i], d),
            None => slots[i],
        } by {
            assert(slots_after(slots, rest)[i] == match delta_for(rest, i as u64) {
                Some(d) => after_add(slots[i], d),
                None => slots[i],
            });
            assert((i as u64) as int == i);
            if k == i as u64 {
                assert forall|j: int| 0 <= j < rest.len() implies rest[j].0 != k by {
                    assert(rest[j] == pairs[j]);
                }
                lemma_delta_for_absent(rest, k);
            }
        }
    }
}

/// A slot that the first `j` deltas of `pairs` do not name is as it was after adding them.
proof fn lemma_untouched_slot<O>(slots: Seq<Allocation<O>>, pairs: Seq<(u64, isize)>, j: int, k: u64)
    requires
        forall|a: int, b: int| 0 <= a < b < pairs.len() ==> pairs[a].0 != pairs[b].0,
        0 <= j <= pairs.len(),
        forall|i: int| 0 <= i < j ==> pairs[i].0 != k,
        slots.len() <= usize::MAX,
        k < slots.len(),
    ensures
        slots_after(slots, pairs.take(j)).len() == slots.len(),
        slots_after(slots, pairs.take(j))[k as int] == slots[k as int],
{
    let t = pairs.take(j);
    assert forall|a: int, b: int| 0 <= a < b < t.len() implies t[a].0 != t[b].0 by {
        assert(t[a] == pairs[a] && t[b] == pairs[b]);
    }
    assert forall|i: int| 0 <= i < t.len() implies t[i].0 != k by {
        assert(t[i] == pairs[i]);
    }
    lemma_slots_after(slots, t);
    lemma_delta_for_absent(t, k);
    assert((k as int) as u64 == k);
    assert(slots_after(slots, t)[k as int] == slots[k as int]);
}

/// An index that `pairs` does not list has no delta there.
proof fn lemma_delta_for_absent(pairs: Seq<(u64, isize)>, k: u64)
    requires
        forall|i: int| 0 <= i < pairs.len() ==> pairs[i].0 != k,
    ensures
        delta_for(pairs, k) is None,
    decreases pairs.len(),
{
    if pairs.len() > 0 {
        lemma_delta_for_absent(pairs.drop_last(), k);
    }
}

/// Where `pairs` lists the entries of `deltas`, the delta it gives an index is the map's.
pub proof fn lemma_delta_for_listed(pairs: Seq<(u64, isize)>, deltas: Map<u64, isize>, k: u64)
    requires
        lists_deltas(pairs, deltas),
    ensures
        delta_for(pairs, k) == if deltas.contains_key(k) {
            Some(deltas[k])
        } else {
            None::<isize>
        },
    decreases pairs.len(),
{
    if pairs.len() > 0 {
        let rest = pairs.drop_last();
        if pairs.last().0 == k {
            assert(deltas.contains_key(pairs[pairs.len() - 1].0));
        } else {
            if deltas.contains_key(k) {
                let i = choose|i: int| 0 <= i < pairs.len() && pairs[i].0 == k;
                assert(i < pairs.len() - 1);
                assert(rest[i].0 == k);
                let sub = deltas.remove(pairs.last().0);
                assert(lists_deltas(rest, sub)) by {
                    assert forall|k2: u64| #[trigger] sub.contains_key(k2) implies exists|i2: int|
                        0 <= i2 < rest.len() && rest[i2].0 == k2 by {
                        let i2 = choose|i2: int| 0 <= i2 < pairs.len() && pairs[i2].0 == k2;
                        assert(rest[i2].0 == k2);
                    }
                    assert forall|i2: int| 0 <= i2 < rest.len() implies sub.contains_key(
                        #[trigger] rest[i2].0,
                    ) && sub[rest[i2].0] == rest[i2].1 by {
                        assert(pairs[i2] == rest[i2]);
                        assert(pairs[i2].0 != pairs[pairs.len() - 1].0);
                    }
                }
                lemma_delta_for_listed(rest, sub, k);
            } else {
                lemma_delta_for_absent(pairs, k);
            }
        }
    }
}

/// Adding a positive delta to a refcount and taking it away again restores the slot, as long
/// as the refcount does not wrap around and the slot is not freed on the way: it holds a
/// reference already, or it is being freed already.
pub proof fn lemma_add_then_remove<O>(a: Allocation<O>, delta: isize)
    requires
        delta > 0,
        a.refcount + delta <= usize::MAX,
        a.refcount > 0 || a.deallocating,
    ensures
        after_add(after_add(a, delta), (-delta) as isize) == a,
{
}

/// A value is allocated with a refcount of one: its slot starts at zero, and the one
/// reference its task owns is added when the task's changes are applied.
pub proof fn lemma_allocated_refcount_one<O>(inner: AllocationInner<O>)
    ensures
        after_add(Allocation { inner: Some(inner), refcount: 0, deallocating: false }, 1)
            == (Allocation { inner: Some(inner), refcount: 1, deallocating: false }),
{
}

/// Taking away at least as many references as a live slot holds frees it.
pub proof fn lemma_last_reference_frees<O>(a: Allocation<O>, delta: isize)
    requires
        delta <= 0,
        a.refcount + delta <= 0,
        !a.deallocating,
    ensures
        frees(a, delta),
        after_add(a, delta) == vacant_slot::<O>(),
{
}

struct Allocations<O> {
    vec: Vec<Allocation<O>>,
    used: usize,
}

/// The refcount of allocations is tracked in two ways:
/// - globally:
///     Within each allocation, there is a global refcount that is used to determine
///     whether the allocation should be freed.
/// - task-wise:
///     Each task tracks the refcount of all _owned_ references, so that those references
///     can be subtracted when the task is removed. This refcount does **not** track the references
///     written to output channels, which is done separately.
pub struct Allocator<O> {
    allocations: Allocations<O>,
    free_indices: VecDeque<u64>,
    task_ref_counters: TaskRefCounters,
}

/// Entry `p` of `tasks` is the task of node `n`.
pub open spec fn holds_task_of(tasks: Seq<Option<Task>>, p: int, n: NodeIndex) -> bool {
    tasks[p] matches Some(t) && t.node_index == n
}

/// The change recorded for `index`, or zero where none is.
pub open spec fn delta_or_zero(deltas: Map<u64, isize>, index: u64) -> int {
    if deltas.contains_key(index) {
        deltas[index] as int
    } else {
        0
    }
}

/// `count` vacant slots.
pub open spec fn vacant_slots<O>(count: nat) -> Seq<Allocation<O>> {
    Seq::new(count, |i: int| vacant_slot::<O>())
}

/// The indices `start`, `start + 1`, ... below `end`.
pub open spec fn index_range(start: int, end: int) -> Seq<u64> {
    Seq::new((end - start) as nat, |i: int| (start + i) as u64)
}

impl<O> Allocator<O> {
    /// The slots, by index.
    pub closed spec fn slots(self) -> Seq<Allocation<O>> {
        self.allocations.vec@
    }

    /// The indices that will be handed out next, in order.
    pub closed spec fn free_list(self) -> Seq<u64> {
        self.free_indices@
    }

    /// The number from which the indices of new slots are counted.
    pub closed spec fn used(self) -> usize {
        self.allocations.used
    }

    /// The refcount changes of all tasks.
    pub closed spec fn task_counters(self) -> TaskRefCounters {
        self.task_ref_counters
    }

    /// Whether the current schedule has a task for node `n`.
    pub closed spec fn has_counter(self, n: NodeIndex) -> bool {
        self.task_ref_counters.counters@.contains_key(n)
    }

    /// The refcount changes collected for the task of node `n`.
    pub closed spec fn deltas(self, n: NodeIndex) -> Map<u64, isize> {
        self.task_ref_counters.counters@[n].refcount_deltas@
    }

    /// The allocator's invariant: new slots are counted from the end of the slots; the free
    /// indices are distinct and each names a vacant slot; and a slot holds a value exactly when
    /// it is not marked as freed.
    pub open spec fn wf(self) -> bool {
        &&& self.used() == self.slots().len()
        &&& self.free_list().no_duplicates()
        &&& forall|k: int|
            0 <= k < self.free_list().len() ==> #[trigger] self.free_list()[k] < self.slots().len()
                && self.slots()[self.free_list()[k] as int].inner is None
        &&& forall|i: int|
            0 <= i < self.slots().len() ==> ((#[trigger] self.slots()[i]).inner is Some <==> !self.slots()[i].deallocating)
    }

    /// The index the next allocation takes: the first free index, or, where none is left, the
    /// first index counted after expanding.
    pub open spec fn next_index(self) -> u64 {
        if self.free_list().len() > 0 {
            self.free_list()[0]
        } else {
            self.used() as u64
        }
    }

    /// The slots once a free slot is available.
    pub open spec fn slots_ready(self) -> Seq<Allocation<O>> {
        if self.free_list().len() > 0 {
            self.slots()
        } else {
            self.slots() + vacant_slots(EXPAND_BY as nat)
        }
    }

    /// The free indices once the next index has been taken.
    pub open spec fn free_after_next(self) -> Seq<u64> {
        if self.free_list().len() > 0 {
            self.free_list().drop_first()
        } else {
            index_range(self.used() + 1, self.used() + EXPAND_BY)
        }
    }

    /// Changing the slots without changing which of them hold values, or which are marked as
    /// freed, keeps the allocator well-formed.
    proof fn lemma_wf_kept(self, other: Self)
        requires
            self.wf(),
            other.free_list() == self.free_list(),
            other.slots().len() == self.slots().len(),
            other.used() == self.used(),
            forall|i: int|
                0 <= i < self.slots().len() ==> (#[trigger] other.slots()[i]).inner is Some == self.slots()[i].inner is Some
                    && other.slots()[i].deallocating == self.slots()[i].deallocating,
        ensures
            other.wf(),
    {
        assert forall|k: int| 0 <= k < other.free_list().len() implies #[trigger] other.free_list()[k]
            < other.slots().len() && other.slots()[other.free_list()[k] as int].inner is None by {
            assert(self.free_list()[k] < self.slots().len());
            assert(other.slots()[other.free_list()[k] as int].inner is Some == self.slots()[self.free_list()[k] as int].inner is Some);
        }
        assert forall|i: int| 0 <= i < other.slots().len() implies ((#[trigger] other.slots()[i]).inner is Some
            <==> !other.slots()[i].deallocating) by {
            assert(self.slots()[i].inner is Some <==> !self.slots()[i].deallocating);
        }
    }

    /// An empty allocator.
    pub fn new() -> (r: Self)
        ensures
            r.wf(),
            r.slots().len() == 0,
            r.free_list().len() == 0,
            r.used() == 0,
            forall|n: NodeIndex| !r.has_counter(n),
    {
        Allocator {
            allocations: Allocations { vec: Vec::new(), used: 0 },
            free_indices: VecDeque::new(),
            task_ref_counters: TaskRefCounters::new(),
        }
    }

    /// Starts a new set of task refcounts: one empty counter per task of the schedule.
    pub fn prepare_for_schedule(&mut self, schedule: &Schedule)
        ensures
            final(self).slots() == old(self).slots(),
            final(self).free_list() == old(self).free_list(),
            final(self).used() == old(self).used(),
            forall|n: NodeIndex|
                #[trigger] final(self).has_counter(n) <==> exists|p: int|
                    0 <= p < schedule.tasks@.len() && #[trigger] holds_task_of(schedule.tasks@, p, n),
            forall|n: NodeIndex|
                #[trigger] final(self).has_counter(n) ==> final(self).deltas(n) == Map::<
                    u64,
                    isize,
                >::empty(),
    {
        self.task_ref_counters.counters.clear();
        let mut i: usize = 0;
        while i < schedule.tasks.len()
            invariant
                i <= schedule.tasks@.len(),
                self.allocations == old(self).allocations,
                self.free_indices == old(self).free_indices,
                forall|n: NodeIndex|
                    #[trigger] self.task_ref_counters.counters@.contains_key(n) <==> exists|p: int|
                        0 <= p < i && #[trigger] holds_task_of(schedule.tasks@, p, n),
                forall|n: NodeIndex|
                    #[trigger] self.task_ref_counters.counters@.contains_key(n)
                        ==> self.task_ref_counters.counters@[n].refcount_deltas@ == Map::<
                        u64,
                        isize,
                    >::empty(),
            decreases schedule.tasks@.len() - i,
        {
            let ghost before = self.task_ref_counters.counters@;
            match &schedule.tasks[i] {
                Some(task) => {
                    self.task_ref_counters.counters.insert(task.node_index, TaskRefCounter::new());
                },
                None => {},
            }
            proof {
                assert forall|n: NodeIndex|
                    #[trigger] self.task_ref_counters.counters@.contains_key(n) <==> exists|p: int|
                        0 <= p < i + 1 && #[trigger] holds_task_of(schedule.tasks@, p, n) by {
                    if self.task_ref_counters.counters@.contains_key(n) {
                        if before.contains_key(n) {
                            let p = choose|p: int| 0 <= p < i && #[trigger] holds_task_of(schedule.tasks@, p, n);
                            assert(holds_task_of(schedule.tasks@, p, n));
                        } else {
                            assert(holds_task_of(schedule.tasks@, i as int, n));
                        }
                    }
                    if exists|p: int| 0 <= p < i + 1 && #[trigger] holds_task_of(schedule.tasks@, p, n) {
                        let p = choose|p: int| 0 <= p < i + 1 && #[trigger] holds_task_of(schedule.tasks@, p, n);
                        if p < i {
                            assert(before.contains_key(n));
                        }
                    }
                }
            }
            i = i + 1;
        }
    }

    /// Adds `EXPAND_BY` vacant slots, frees their indices, which are counted from `used`, and
    /// counts the next new slots from after them.
    fn expand(&mut self)
        requires
            old(self).wf(),
            old(self).used() + EXPAND_BY <= usize::MAX,
        ensures
            final(self).wf(),
            final(self).slots() == old(self).slots() + vacant_slots(EXPAND_BY as nat),
            final(self).free_list() == old(self).free_list() + index_range(
                old(self).used() as int,
                old(self).used() + EXPAND_BY,
            ),
            final(self).used() == old(self).used() + EXPAND_BY,
            final(self).task_counters() == old(self).task_counters(),
    {
        self.allocations.vec.reserve(EXPAND_BY);
        let mut rel_index: usize = 0;
        while rel_index < EXPAND_BY
            invariant
                rel_index <= EXPAND_BY,
                self.allocations.used == old(self).allocations.used,
                old(self).used() + EXPAND_BY <= usize::MAX,
                old(self).wf(),
                self.task_ref_counters == old(self).task_ref_counters,
                self.allocations.vec@ == old(self).slots() + vacant_slots(rel_index as nat),
                self.free_indices@ == old(self).free_list() + index_range(
                    old(self).used() as int,
                    old(self).used() + rel_index,
                ),
            decreases EXPAND_BY - rel_index,
        {
            let abs_index = self.allocations.used + rel_index;
            self.allocations.vec.push(Allocation::new());
            self.free_indices.push_back(abs_index as u64);
            proof {
                assert(self.allocations.vec@ =~= old(self).slots() + vacant_slots((rel_index + 1) as nat));
                assert(self.free_indices@ =~= old(self).free_list() + index_range(
                    old(self).used() as int,
                    old(self).used() + rel_index + 1,
                ));
            }
            rel_index = rel_index + 1;
        }
        self.allocations.used = self.allocations.used + EXPAND_BY;
        proof {
            let old_len = old(self).slots().len() as int;
            assert forall|k: int| 0 <= k < self.free_list().len() implies #[trigger] self.free_list()[k]
                < self.slots().len() && self.slots()[self.free_list()[k] as int].inner is None by {
                if k < old(self).free_list().len() {
                    assert(self.free_list()[k] == old(self).free_list()[k]);
                    assert(old(self).free_list()[k] < old_len);
                    assert(self.slots()[self.free_list()[k] as int] == old(self).slots()[old(self).free_list()[k] as int]);
                } else {
                    assert(self.free_list()[k] == old_len + (k - old(self).free_list().len()));
                }
            }
            assert forall|i: int, j: int| 0 <= i < self.free_list().len() && 0 <= j < self.free_list().len() && i != j
                implies self.free_list()[i] != self.free_list()[j] by {
                let n = old(self).free_list().len() as int;
                if i < n && j < n {
                    assert(old(self).free_list().no_duplicates());
                    assert(self.free_list()[i] == old(self).free_list()[i]);
                    assert(self.free_list()[j] == old(self).free_list()[j]);
                } else if i < n {
                    assert(old(self).free_list()[i] < old_len);
                } else if j < n {
                    assert(old(self).free_list()[j] < old_len);
                }
            }
            assert forall|i: int| 0 <= i < self.slots().len() implies ((#[trigger] self.slots()[i]).inner is Some
                <==> !self.slots()[i].deallocating) by {
                if i < old_len {
                    assert(self.slots()[i] == old(self).slots()[i]);
                }
            }
        }
    }

    /// Allocates a value, made by `get_inner` from its pointer, in the next free slot, with
    /// refcount 1. That one reference belongs to the task of `handle`'s node and is counted
    /// among its owned references: the slot's own refcount is zero and the node's task-wise
    /// refcount of the slot is raised by one, so that `apply_owned_and_output_refcounts`
    /// leaves the slot at refcount 1 where the task changes it no further. Where no free slot
    /// is left, `EXPAND_BY` slots are added first. The slot taken was vacant.
    pub fn allocate_value<F: FnOnce(AllocationPointer) -> AllocationInner<O>>(
        &mut self,
        handle: AllocatorHandle,
        get_inner: F,
    ) -> (r: AllocationPointer)
        requires
            old(self).wf(),
            old(self).free_list().len() == 0 ==> old(self).used() + EXPAND_BY <= usize::MAX,
            old(self).has_counter(handle.node),
            old(self).deltas(handle.node).contains_key(old(self).next_index()) ==> old(self).deltas(
                handle.node,
            )[old(self).next_index()] < isize::MAX,
            forall|p: AllocationPointer| get_inner.requires((p,)),
        ensures
            final(self).wf(),
            r.index == old(self).next_index(),
            r.index < old(self).slots_ready().len(),
            old(self).slots_ready()[r.index as int].inner is None,
            final(self).free_list() == old(self).free_after_next(),
            final(self).slots().len() == old(self).slots_ready().len(),
            forall|i: int|
                0 <= i < final(self).slots().len() && i != r.index ==> final(self).slots()[i]
                    == old(self).slots_ready()[i],
            exists|inner: AllocationInner<O>|
                get_inner.ensures((r,), inner) && final(self).slots()[r.index as int] == (Allocation {
                    inner: Some(inner),
                    refcount: 0,
                    deallocating: false,
                }),
            forall|n: NodeIndex| #[trigger] final(self).has_counter(n) == old(self).has_counter(n),
            forall|n: NodeIndex|
                n != handle.node ==> #[trigger] final(self).deltas(n) == old(self).deltas(n),
            final(self).deltas(handle.node) == old(self).deltas(handle.node).insert(
                r.index,
                (delta_or_zero(old(self).deltas(handle.node), r.index) + 1) as isize,
            ),
            !old(self).deltas(handle.node).contains_key(r.index) ==> after_add(
                final(self).slots()[r.index as int],
                final(self).deltas(handle.node)[r.index],
            ) == (Allocation {
                inner: final(self).slots()[r.index as int].inner,
                refcount: 1,
                deallocating: false,
            }),
    {
        let ghost ready = old(self).slots_ready();
        let ghost ready_free = if old(self).free_list().len() > 0 {
            old(self).free_list()
        } else {
            index_range(old(self).used() as int, old(self).used() + EXPAND_BY)
        };
        let mut free_index: u64 = 0;
        loop
            invariant_except_break
                ready == old(self).slots_ready(),
                old(self).wf(),
                ready_free == (if old(self).free_list().len() > 0 {
                    old(self).free_list()
                } else {
                    index_range(old(self).used() as int, old(self).used() + EXPAND_BY)
                }),
                self.wf(),
                self.task_ref_counters == old(self).task_ref_counters,
                old(self).free_list().len() == 0 ==> old(self).used() + EXPAND_BY <= usize::MAX,
                self.free_list().len() > 0 ==> self.slots() == ready && self.free_list() == ready_free,
                self.free_list().len() == 0 ==> self.slots() == old(self).slots() && old(self).free_list().len()
                    == 0 && self.used() == old(self).used(),
            ensures
                ready == old(self).slots_ready(),
                self.task_ref_counters == old(self).task_ref_counters,
                free_index == old(self).next_index(),
                self.slots() == ready,
                self.used() == ready.len(),
                ready_free.len() > 0,
                ready_free[0] == free_index,
                self.free_list() == ready_free.drop_first(),
                self.free_list() == old(self).free_after_next(),
                ready_free.no_duplicates(),
                forall|k: int|
                    0 <= k < ready_free.len() ==> #[trigger] ready_free[k] < ready.len()
                        && ready[ready_free[k] as int].inner is None,
                forall|i: int| 0 <= i < ready.len() ==> ((#[trigger] ready[i]).inner is Some <==> !ready[i].deallocating),
            decreases (if self.free_list().len() > 0 { 0int } else { 1int }),
        {
            let ghost before = self.free_list();
            match self.free_indices.pop_front() {
                Some(index) => {
                    free_index = index;
                    proof {
                        assert(before.len() > 0);
                        assert(self.free_list() =~= ready_free.drop_first());
                        if old(self).free_list().len() == 0 {
                            assert(index_range(old(self).used() as int, old(self).used() + EXPAND_BY).drop_first()
                                =~= index_range(old(self).used() + 1, old(self).used() + EXPAND_BY));
                        }
                    }
                    break;
                },
                None => {
                    if self.allocations.used > self.allocations.vec.len() {
                        // Already expanded.
                        continue;
                    }
                    self.expand();
                    proof {
                        assert(self.slots() =~= ready);
                        assert(self.free_list() =~= ready_free);
                    }
                },
            }
        }
        let ptr = AllocationPointer { index: free_index };
        let inner = get_inner(ptr);
        let ghost made = inner;
        assert(self.allocations.vec.len() == self.allocations.vec@.len());
        let slot_index = free_index as usize;
        assert(slot_index == free_index);
        assert(ready[free_index as int].inner is None);
        self.allocations.vec[slot_index].claim_with(inner);
        proof {
            assert forall|k: int| 0 <= k < self.free_list().len() implies #[trigger] self.free_list()[k]
                < self.slots().len() && self.slots()[self.free_list()[k] as int].inner is None by {
                assert(self.free_list()[k] == ready_free[k + 1]);
                assert(ready_free[k + 1] != ready_free[0]);
            }
            assert forall|i: int, j: int| 0 <= i < self.free_list().len() && 0 <= j < self.free_list().len() && i != j
                implies self.free_list()[i] != self.free_list()[j] by {
                assert(self.free_list()[i] == ready_free[i + 1]);
                assert(self.free_list()[j] == ready_free[j + 1]);
            }
            assert forall|i: int| 0 <= i < self.slots().len() implies ((#[trigger] self.slots()[i]).inner is Some
                <==> !self.slots()[i].deallocating) by {
                if i != free_index {
                    assert(self.slots()[i] == ready[i]);
                }
            }
            assert(self.wf());
        }
        let _ = self.refcount_owned_increment(ptr, handle.node);
        proof {
            assert(get_inner.ensures((ptr,), made));
        }
        ptr
    }

    /// Alters the task-wise refcount of owned values.
    pub fn refcount_owned_add(&mut self, allocation_ptr: AllocationPointer, node: NodeIndex, delta: isize) -> (r:
        Result<(), ()>)
        requires
            old(self).has_counter(node),
            isize::MIN <= delta_or_zero(old(self).deltas(node), allocation_ptr.index) + delta <= isize::MAX,
        ensures
            r is Ok,
            old(self).wf() ==> final(self).wf(),
            final(self).slots() == old(self).slots(),
            final(self).free_list() == old(self).free_list(),
            final(self).used() == old(self).used(),
            forall|n: NodeIndex| #[trigger] final(self).has_counter(n) == old(self).has_counter(n),
            forall|n: NodeIndex| n != node ==> #[trigger] final(self).deltas(n) == old(self).deltas(n),
            final(self).deltas(node) == old(self).deltas(node).insert(
                allocation_ptr.index,
                (delta_or_zero(old(self).deltas(node), allocation_ptr.index) + delta) as isize,
            ),
    {
        let mut task_ref_counter = self.task_ref_counters.counters.remove(&node).unwrap();
        let current: isize = match task_ref_counter.refcount_deltas.get(&allocation_ptr.index) {
            Some(current) => *current,
            None => 0,
        };
        task_ref_counter.refcount_deltas.insert(allocation_ptr.index, current + delta);
        self.task_ref_counters.counters.insert(node, task_ref_counter);
        assert(self.allocations == old(self).allocations);
        assert(self.free_indices == old(self).free_indices);
        proof {
            if old(self).wf() {
                assert(self.slots() == old(self).slots());
                assert(self.free_list() == old(self).free_list());
                assert forall|k: int| 0 <= k < self.free_list().len() implies self.free_list()[k]
                    < self.slots().len() by {
                    assert(old(self).free_list()[k] < old(self).slots().len());
                }
            }
            assert forall|n: NodeIndex| #[trigger] self.has_counter(n) == old(self).has_counter(n) by {}
        }
        Ok(())
    }

    /// Increments the task-wise refcount of owned values by 1.
    pub fn refcount_owned_increment(&mut self, allocation_ptr: AllocationPointer, node: NodeIndex) -> (r: Result<
        (),
        (),
    >)
        requires
            old(self).has_counter(node),
            delta_or_zero(old(self).deltas(node), allocation_ptr.index) < isize::MAX,
        ensures
            r is Ok,
            old(self).wf() ==> final(self).wf(),
            final(self).slots() == old(self).slots(),
            final(self).free_list() == old(self).free_list(),
            final(self).used() == old(self).used(),
            forall|n: NodeIndex| #[trigger] final(self).has_counter(n) == old(self).has_counter(n),
            forall|n: NodeIndex| n != node ==> #[trigger] final(self).deltas(n) == old(self).deltas(n),
            final(self).deltas(node) == old(self).deltas(node).insert(
                allocation_ptr.index,
                (delta_or_zero(old(self).deltas(node), allocation_ptr.index) + 1) as isize,
            ),
    {
        self.refcount_owned_add(allocation_ptr, node, 1)
    }

    /// Decrements the task-wise refcount of owned values by 1.
    pub fn refcount_owned_decrement(&mut self, allocation_ptr: AllocationPointer, node: NodeIndex) -> (r: Result<
        (),
        (),
    >)
        requires
            old(self).has_counter(node),
            delta_or_zero(old(self).deltas(node), allocation_ptr.index) > isize::MIN,
        ensures
            r is Ok,
            old(self).wf() ==> final(self).wf(),
            final(self).slots() == old(self).slots(),
            final(self).free_list() == old(self).free_list(),
            final(self).used() == old(self).used(),
            forall|n: NodeIndex| #[trigger] final(self).has_counter(n) == old(self).has_counter(n),
            forall|n: NodeIndex| n != node ==> #[trigger] final(self).deltas(n) == old(self).deltas(n),
            final(self).deltas(node) == old(self).deltas(node).insert(
                allocation_ptr.index,
                (delta_or_zero(old(self).deltas(node), allocation_ptr.index) - 1) as isize,
            ),
    {
        self.refcount_owned_add(allocation_ptr, node, -1)
    }

    /// Allocates a zeroed value of the sized type `ty` for the task of `handle`'s node.
    pub fn allocate_bytes(&mut self, ty: TypeEnum, handle: AllocatorHandle) -> (r: AllocationPointer)
        requires
            old(self).wf(),
            old(self).free_list().len() == 0 ==> old(self).used() + EXPAND_BY <= usize::MAX,
            old(self).has_counter(handle.node),
            old(self).deltas(handle.node).contains_key(old(self).next_index()) ==> old(self).deltas(
                handle.node,
            )[old(self).next_index()] < isize::MAX,
            wf(ty),
            value_size(ty) is Some,
        ensures
            final(self).wf(),
            r.index == old(self).next_index(),
            final(self).free_list() == old(self).free_after_next(),
            old(self).slots_ready()[r.index as int].inner is None,
            final(self).slots().len() == old(self).slots_ready().len(),
            forall|i: int|
                0 <= i < final(self).slots().len() && i != r.index ==> final(self).slots()[i]
                    == old(self).slots_ready()[i],
            final(self).slots()[r.index as int].refcount == 0,
            !final(self).slots()[r.index as int].deallocating,
            final(self).slots()[r.index as int].inner matches Some(inner) && inner.spec_ty() == ty
                && inner.spec_ptr() == r && inner.spec_inner() is Bytes
                && inner.spec_inner()->Bytes_0@ == Seq::new(value_size(ty)->0, |i: int| 0u8),
            forall|n: NodeIndex| #[trigger] final(self).has_counter(n) == old(self).has_counter(n),
            forall|n: NodeIndex|
                n != handle.node ==> #[trigger] final(self).deltas(n) == old(self).deltas(n),
            final(self).deltas(handle.node) == old(self).deltas(handle.node).insert(
                r.index,
                (delta_or_zero(old(self).deltas(handle.node), r.index) + 1) as isize,
            ),
    {
        let make = move |ptr: AllocationPointer| -> (inner: AllocationInner<O>)
            requires
                wf(ty),
                value_size(ty) is Some,
            ensures
                inner.spec_ty() == ty,
                inner.spec_ptr() == ptr,
                inner.spec_inner() is Bytes,
                inner.spec_inner()->Bytes_0@ == Seq::new(value_size(ty)->0, |i: int| 0u8),
            { AllocationInner::new_bytes(ty, ptr) };
        self.allocate_value(handle, make)
    }

    /// Frees the slot of `allocation_ptr` and hands its index out again after the indices that
    /// are free already, unless the slot is being freed already.
    pub fn deallocate(&mut self, allocation_ptr: AllocationPointer)
        requires
            old(self).wf(),
            allocation_ptr.index < old(self).slots().len(),
        ensures
            final(self).wf(),
            final(self).used() == old(self).used(),
            final(self).task_counters() == old(self).task_counters(),
            old(self).slots()[allocation_ptr.index as int].deallocating ==> final(self).slots()
                == old(self).slots() && final(self).free_list() == old(self).free_list(),
            !old(self).slots()[allocation_ptr.index as int].deallocating ==> final(self).slots()
                == old(self).slots().update(allocation_ptr.index as int, vacant_slot())
                && final(self).free_list() == old(self).free_list().push(allocation_ptr.index),
    {
        assert(self.allocations.vec.len() == self.allocations.vec@.len());
        let index = allocation_ptr.as_usize();
        if self.allocations.vec[index].deallocating {
            // Already deallocated.
            return;
        }
        self.allocations.vec[index].free();
        self.free_indices.push_back(allocation_ptr.as_u64());
        proof {
            assert forall|k: int| 0 <= k < self.free_list().len() implies self.free_list()[k]
                < self.slots().len() by {
                if k < old(self).free_list().len() {
                    assert(self.free_list()[k] == old(self).free_list()[k]);
                }
            }
        }
    }

    /// Adds `delta` to the refcount of the allocation, and frees it where a decrease leaves the
    /// refcount at zero. Returns `Ok(true)` when the allocation has been freed, `Ok(false)`
    /// when it is still live, and `Err`, changing nothing, if no such allocation exists: the
    /// index names no slot, or a vacant one.
    pub fn refcount_global_add(&mut self, allocation_ptr: AllocationPointer, delta: isize) -> (r: Result<bool, ()>)
        requires
            old(self).wf(),
            allocation_ptr.index <= usize::MAX,
            delta > isize::MIN,
        ensures
            final(self).wf(),
            final(self).used() == old(self).used(),
            final(self).task_counters() == old(self).task_counters(),
            r is Err <==> !names_live(old(self).slots(), allocation_ptr.index),
            r is Err ==> final(self).slots() == old(self).slots() && final(self).free_list() == old(
                self,
            ).free_list(),
            r matches Ok(freed) ==> {
                let i = allocation_ptr.index as int;
                let a = old(self).slots()[i];
                &&& freed == frees(a, delta)
                &&& freed == (delta <= 0 && refcount_after(a.refcount, delta) == 0)
                &&& final(self).slots() == old(self).slots().update(i, after_add(a, delta))
                &&& final(self).free_list() == if frees(a, delta) {
                    old(self).free_list().push(allocation_ptr.index)
                } else {
                    old(self).free_list()
                }
            },
    {
        assert(self.allocations.vec.len() == self.allocations.vec@.len());
        let index = allocation_ptr.as_usize();
        if index < self.allocations.vec.len() && self.allocations.vec[index].inner.is_some() {
            if delta > 0 {
                let refcount = self.allocations.vec[index].refcount;
                self.allocations.vec[index].refcount = refcount.wrapping_add(delta as usize);
                proof {
                    old(self).lemma_wf_kept(*self);
                }
                Ok(false)
            } else {
                let refcount_before_swap = self.allocations.vec[index].refcount;
                let refcount_new = refcount_before_swap.saturating_sub((-delta) as usize);
                self.allocations.vec[index].refcount = refcount_new;
                proof {
                    old(self).lemma_wf_kept(*self);
                }
                if refcount_new == 0 {
                    let already_freed = self.allocations.vec[index].deallocating;
                    self.deallocate(allocation_ptr);
                    proof {
                        assert(self.slots() =~= old(self).slots().update(
                            index as int,
                            after_add(old(self).slots()[index as int], delta),
                        ));
                    }
                    Ok(!already_freed)
                } else {
                    // Deallocation was not necessary.
                    Ok(false)
                }
            }
        } else {
            Err(())
        }
    }

    /// Adds `delta` to the refcount of the allocation, as `refcount_global_add` does; `Err`,
    /// changing nothing, where `delta` does not fit an `isize` or no such allocation exists.
    pub fn refcount_global_increase(&mut self, allocation_ptr: AllocationPointer, delta: usize) -> (r: Result<
        (),
        (),
    >)
        requires
            old(self).wf(),
            allocation_ptr.index <= usize::MAX,
        ensures
            final(self).wf(),
            final(self).used() == old(self).used(),
            final(self).task_counters() == old(self).task_counters(),
            r is Err <==> delta > isize::MAX || !names_live(old(self).slots(), allocation_ptr.index),
            r is Err ==> final(self).slots() == old(self).slots() && final(self).free_list() == old(
                self,
            ).free_list(),
            r is Ok ==> {
                let i = allocation_ptr.index as int;
                let a = old(self).slots()[i];
                &&& final(self).slots() == old(self).slots().update(i, after_add(a, delta as isize))
                &&& final(self).free_list() == if frees(a, delta as isize) {
                    old(self).free_list().push(allocation_ptr.index)
                } else {
                    old(self).free_list()
                }
            },
    {
        if delta <= isize::MAX as usize {
            match self.refcount_global_add(allocation_ptr, delta as isize) {
                Ok(_) => Ok(()),
                Err(e) => Err(e),
            }
        } else {
            Err(())
        }
    }

    /// Adds the refcount changes collected for the task of `node` to the global refcounts,
    /// one allocation after the other in the order of the task's counter, and clears them.
    /// Stops with `Err` at the first change for an allocation that does not exist.
    pub fn apply_owned_and_output_refcounts(&mut self, node: NodeIndex, output_delta: ()) -> (r: Result<
        (),
        (),
    >)
        requires
            old(self).wf(),
            old(self).has_counter(node),
            forall|k: u64|
                #[trigger] old(self).deltas(node).contains_key(k) ==> k <= usize::MAX && old(self).deltas(
                    node,
                )[k] > isize::MIN,
        ensures
            final(self).wf(),
            final(self).used() == old(self).used(),
            forall|n: NodeIndex| #[trigger] final(self).has_counter(n) == old(self).has_counter(n),
            forall|n: NodeIndex| n != node ==> #[trigger] final(self).deltas(n) == old(self).deltas(n),
            r is Ok <==> forall|k: u64|
                #[trigger] old(self).deltas(node).contains_key(k) ==> names_live(old(self).slots(), k),
            r is Ok ==> final(self).deltas(node) == Map::<u64, isize>::empty(),
            r is Err ==> final(self).deltas(node) == old(self).deltas(node),
            exists|pairs: Seq<(u64, isize)>, j: int|
                {
                    &&& lists_deltas(pairs, old(self).deltas(node))
                    &&& 0 <= j <= pairs.len()
                    &&& (r is Ok ==> j == pairs.len())
                    &&& (r is Err ==> j < pairs.len() && !names_live(old(self).slots(), pairs[j].0))
                    &&& final(self).slots() == slots_after(old(self).slots(), pairs.take(j))
                    &&& final(self).free_list() == old(self).free_list() + freed_in(
                        old(self).slots(),
                        pairs.take(j),
                    )
                },
            r is Ok ==> final(self).slots().len() == old(self).slots().len(),
            r is Ok ==> forall|i: int|
                0 <= i < old(self).slots().len() ==> #[trigger] final(self).slots()[i] == if old(
                    self,
                ).deltas(node).contains_key(i as u64) {
                    after_add(old(self).slots()[i], old(self).deltas(node)[i as u64])
                } else {
                    old(self).slots()[i]
                },
    {
        let ghost deltas = old(self).deltas(node);
        let ghost slots = old(self).slots();
        let task_ref_counter = self.task_ref_counters.counters.get(&node).unwrap();
        let ghost listed = vstd::std_specs::hash::spec_hash_map_iter(&task_ref_counter.refcount_deltas).remaining();
        assert(task_ref_counter.refcount_deltas@ == deltas);
        let mut pairs: Vec<(u64, isize)> = Vec::new();
        for (ptr_index, delta) in it: task_ref_counter.refcount_deltas.iter()
            invariant
                pairs@.len() == it.index(),
                forall|i: int| 0 <= i < it.index() ==> #[trigger] pairs@[i] == (*it.seq()[i].0, *it.seq()[i].1),
                it.seq() == listed,
        {
            pairs.push((*ptr_index, *delta));
        }
        proof {
            assert(pairs@.len() == listed.len());
            assert(listed.no_duplicates());
            assert forall|i: int| 0 <= i < pairs@.len() implies deltas.contains_key(#[trigger] pairs@[i].0)
                && deltas[pairs@[i].0] == pairs@[i].1 by {
                assert(pairs@[i] == (*listed[i].0, *listed[i].1));
            }
            assert forall|i: int, j: int| 0 <= i < j < pairs@.len() implies pairs@[i].0 != pairs@[j].0 by {
                assert(pairs@[i] == (*listed[i].0, *listed[i].1));
                assert(pairs@[j] == (*listed[j].0, *listed[j].1));
                assert(deltas.contains_key(pairs@[i].0));
                assert(deltas.contains_key(pairs@[j].0));
            }
            assert forall|k: u64| #[trigger] deltas.contains_key(k) implies exists|i: int|
                0 <= i < pairs@.len() && pairs@[i].0 == k by {
                assert(listed.contains((&k, &deltas[k])));
                let i = choose|i: int| 0 <= i < listed.len() && listed[i] == (&k, &deltas[k]);
                assert(pairs@[i] == (*listed[i].0, *listed[i].1));
            }
            assert(lists_deltas(pairs@, deltas));
            assert(pairs@.take(0) =~= Seq::<(u64, isize)>::empty());
            assert(self.allocations.vec.len() == self.allocations.vec@.len());
            lemma_slots_after(slots, pairs@);
        }
        let mut j: usize = 0;
        while j < pairs.len()
            invariant
                j <= pairs@.len(),
                self.wf(),
                self.used() == old(self).used(),
                self.task_counters() == old(self).task_counters(),
                slots == old(self).slots(),
                deltas == old(self).deltas(node),
                old(self).has_counter(node),
                lists_deltas(pairs@, deltas),
                forall|k: u64|
                    #[trigger] deltas.contains_key(k) ==> k <= usize::MAX && deltas[k] > isize::MIN,
                self.slots() == slots_after(slots, pairs@.take(j as int)),
                self.slots().len() == slots.len(),
                self.free_list() == old(self).free_list() + freed_in(slots, pairs@.take(j as int)),
                forall|i: int| 0 <= i < j ==> names_live(slots, #[trigger] pairs@[i].0),
                slots.len() <= usize::MAX,
            decreases pairs@.len() - j,
        {
            let (altered_ptr, delta) = pairs[j];
            proof {
                assert(deltas.contains_key(pairs@[j as int].0));
                assert(pairs@.take(j + 1).drop_last() =~= pairs@.take(j as int));
                assert(pairs@.take(j + 1).last() == pairs@[j as int]);
            }
            proof {
                if altered_ptr < slots.len() {
                    assert forall|i: int| 0 <= i < j implies pairs@[i].0 != altered_ptr by {
                        assert(pairs@[j as int].0 == altered_ptr);
                    }
                    lemma_untouched_slot(slots, pairs@, j as int, altered_ptr);
                }
            }
            match self.refcount_global_add(AllocationPointer { index: altered_ptr }, delta) {
                Ok(_) => {},
                Err(e) => {
                    proof {
                        assert(deltas.contains_key(pairs@[j as int].0));
                    }
                    return Err(e);
                },
            }
            proof {
                assert(self.free_list() =~= old(self).free_list() + freed_in(slots, pairs@.take(j + 1)));
            }
            j = j + 1;
        }
        let mut task_ref_counter = self.task_ref_counters.counters.remove(&node).unwrap();
        task_ref_counter.refcount_deltas.clear();
        self.task_ref_counters.counters.insert(node, task_ref_counter);
        proof {
            assert(pairs@.take(j as int) =~= pairs@);
            assert forall|k: u64| #[trigger] deltas.contains_key(k) implies names_live(slots, k) by {
                let i = choose|i: int| 0 <= i < pairs@.len() && pairs@[i].0 == k;
                assert(names_live(slots, pairs@[i].0));
            }
            assert forall|i: int| 0 <= i < slots.len() implies #[trigger] self.slots()[i] == if deltas.contains_key(
                i as u64,
            ) {
                after_add(slots[i], deltas[i as u64])
            } else {
                slots[i]
            } by {
                lemma_delta_for_listed(pairs@, deltas, i as u64);
            }
            assert forall|n: NodeIndex| #[trigger] self.has_counter(n) == old(self).has_counter(n) by {}
        }
        Ok(())
    }

    /// Whether the refcount changes of the task of `node` can be applied: the current schedule
    /// has a task for `node`, and each change names an index that fits a `usize` and is a
    /// change that can be negated.
    pub fn refcounts_applicable(&self, node: NodeIndex) -> (r: bool)
        ensures
            r == (self.has_counter(node) && forall|k: u64|
                #[trigger] self.deltas(node).contains_key(k) ==> k <= usize::MAX && self.deltas(node)[k]
                    > isize::MIN),
    {
        let task_ref_counter = match self.task_ref_counters.counters.get(&node) {
            Some(counter) => counter,
            None => {
                return false;
            },
        };
        let ghost deltas = self.deltas(node);
        let ghost listed = vstd::std_specs::hash::spec_hash_map_iter(&task_ref_counter.refcount_deltas).remaining();
        assert(task_ref_counter.refcount_deltas@ == deltas);
        assert(self.has_counter(node));
        for (ptr_index, delta) in it: task_ref_counter.refcount_deltas.iter()
            invariant
                it.seq() == listed,
                deltas == task_ref_counter.refcount_deltas@,
                deltas == self.deltas(node),
                self.has_counter(node),
                forall|i: int|
                    0 <= i < it.index() ==> (*(#[trigger] it.seq()[i]).0 as int) <= usize::MAX && *it.seq()[i].1
                        > isize::MIN,
        {
            if (*ptr_index as u128) > (usize::MAX as u128) || *delta == isize::MIN {
                proof {
                    assert(deltas.contains_key(*ptr_index));
                }
                return false;
            }
        }
        proof {
            assert forall|k: u64| #[trigger] deltas.contains_key(k) implies k <= usize::MAX && deltas[k] > isize::MIN by {
                assert(listed.contains((&k, &deltas[k])));
                let i = choose|i: int| 0 <= i < listed.len() && listed[i] == (&k, &deltas[k]);
                assert(*listed[i].0 == k);
            }
        }
        true
    }

    /// The pointer stored with the value at `allocation_ptr`; `None` where no such slot
    /// exists.
    pub fn pointer_ref(&self, allocation_ptr: AllocationPointer) -> (r: Option<&AllocationPointer>)
        requires
            allocation_ptr.index <= usize::MAX,
            allocation_ptr.index < self.slots().len() ==> self.slots()[allocation_ptr.index as int].inner is Some,
        ensures
            r is Some <==> allocation_ptr.index < self.slots().len(),
            r matches Some(p) ==> *p == self.slots()[allocation_ptr.index as int].inner->0.spec_ptr(),
    {
        assert(self.allocations.vec.len() == self.allocations.vec@.len());
        let index = allocation_ptr.as_usize();
        if index < self.allocations.vec.len() {
            let allocation_inner = self.allocations.vec[index].inner.as_ref().unwrap();
            Some(allocation_inner.ptr())
        } else {
            None
        }
    }

    /// A shared view of the value at `allocation_ptr` and its type; `None` where no such slot
    /// exists.
    pub fn deref_ptr(&self, allocation_ptr: AllocationPointer) -> (r: Option<(Bytes<'_, O>, &TypeEnum)>)
        requires
            allocation_ptr.index <= usize::MAX,
            allocation_ptr.index < self.slots().len() ==> self.slots()[allocation_ptr.index as int].inner is Some,
        ensures
            r is Some <==> allocation_ptr.index < self.slots().len(),
            r matches Some(view) ==> {
                let inner = self.slots()[allocation_ptr.index as int].inner->0;
                &&& *view.1 == inner.spec_ty()
                &&& (view.0 is Bytes <==> inner.spec_inner() is Bytes)
                &&& (view.0 matches Bytes::Bytes(b) ==> b@ == inner.spec_inner()->Bytes_0@)
                &&& (view.0 matches Bytes::Object { data, .. } ==> *data == inner.spec_inner()->data)
            },
    {
        assert(self.allocations.vec.len() == self.allocations.vec@.len());
        let index = allocation_ptr.as_usize();
        if index < self.allocations.vec.len() {
            let allocation_inner = self.allocations.vec[index].inner.as_ref().unwrap();
            Some((allocation_inner.inner().as_ref(), allocation_inner.ty()))
        } else {
            None
        }
    }

    /// A mutable view of the value at `allocation_ptr`, and its type; `None` where no such
    /// slot exists. Writing through the view changes that value only.
    pub fn deref_mut_ptr(&mut self, allocation_ptr: AllocationPointer) -> (r: Option<(BytesMut<'_, O>, &TypeEnum)>)
        requires
            allocation_ptr.index <= usize::MAX,
            allocation_ptr.index < old(self).slots().len() ==> old(self).slots()[allocation_ptr.index as int].inner is Some,
        ensures
            r is Some <==> allocation_ptr.index < old(self).slots().len(),
            r is None ==> *final(self) == *old(self),
            final(self).free_list() == old(self).free_list(),
            final(self).used() == old(self).used(),
            final(self).task_counters() == old(self).task_counters(),
            final(self).slots().len() == old(self).slots().len(),
            forall|j: int|
                0 <= j < old(self).slots().len() && j != allocation_ptr.index ==> final(self).slots()[j]
                    == old(self).slots()[j],
            r matches Some(view) ==> {
                let i = allocation_ptr.index as int;
                let inner = old(self).slots()[i].inner->0;
                let after = final(self).slots()[i];
                &&& *view.1 == inner.spec_ty()
                &&& after.refcount == old(self).slots()[i].refcount
                &&& after.deallocating == old(self).slots()[i].deallocating
                &&& after.inner is Some
                &&& after.inner->0.spec_ty() == inner.spec_ty()
                &&& after.inner->0.spec_ptr() == inner.spec_ptr()
                &&& (view.0 is Bytes <==> inner.spec_inner() is Bytes)
                &&& (view.0 matches BytesMut::Bytes(b) ==> b@ == inner.spec_inner()->Bytes_0@
                    && after.inner->0.spec_inner() is Bytes && after.inner->0.spec_inner()->Bytes_0@
                    == final(b)@)
                &&& (view.0 matches BytesMut::Object { ty_name, data } ==> *data
                    == inner.spec_inner()->data && after.inner->0.spec_inner() == (AllocationType::Object {
                    ty_name,
                    data: *final(data),
                }))
            },
    {
        assert(self.allocations.vec.len() == self.allocations.vec@.len());
        let index = allocation_ptr.as_usize();
        if index < self.allocations.vec.len() {
            match &mut self.allocations.vec[index].inner {
                Some(allocation_inner) => {
                    let AllocationInner { ty, inner, .. } = allocation_inner;
                    Some((inner.as_mut(), &*ty))
                },
                None => None,
            }
        } else {
            None
        }
    }

    /// Mutable access to the pointer stored with the value at `allocation_ptr`; `None` where
    /// no such slot exists.
    pub fn ptr_mut(&mut self, allocation_ptr: AllocationPointer) -> (r: Option<&mut AllocationPointer>)
        requires
            allocation_ptr.index <= usize::MAX,
            allocation_ptr.index < old(self).slots().len() ==> old(self).slots()[allocation_ptr.index as int].inner is Some,
        ensures
            r is Some <==> allocation_ptr.index < old(self).slots().len(),
            r is None ==> *final(self) == *old(self),
            final(self).free_list() == old(self).free_list(),
            final(self).used() == old(self).used(),
            final(self).task_counters() == old(self).task_counters(),
            final(self).slots().len() == old(self).slots().len(),
            forall|j: int|
                0 <= j < old(self).slots().len() && j != allocation_ptr.index ==> final(self).slots()[j]
                    == old(self).slots()[j],
            r matches Some(p) ==> {
                let i = allocation_ptr.index as int;
                let inner = old(self).slots()[i].inner->0;
                let after = final(self).slots()[i];
                &&& *p == inner.spec_ptr()
                &&& after.refcount == old(self).slots()[i].refcount
                &&& after.deallocating == old(self).slots()[i].deallocating
                &&& after.inner is Some
                &&& after.inner->0.spec_ty() == inner.spec_ty()
                &&& after.inner->0.spec_inner() == inner.spec_inner()
                &&& after.inner->0.spec_ptr() == *final(p)
            },
    {
        assert(self.allocations.vec.len() == self.allocations.vec@.len());
        let index = allocation_ptr.as_usize();
        if index < self.allocations.vec.len() {
            match &mut self.allocations.vec[index].inner {
                Some(allocation_inner) => Some(&mut allocation_inner.ptr),
                None => None,
            }
        } else {
            None
        }
    }

    /// Applies `map` to the type of the value at `allocation_ptr`; `Err` where no such slot
    /// exists.
    pub fn map_type<F: FnOnce(&mut TypeEnum)>(&mut self, allocation_ptr: AllocationPointer, map: F) -> (r: Result<(), ()>)
        requires
            allocation_ptr.index <= usize::MAX,
            allocation_ptr.index < old(self).slots().len() ==> old(self).slots()[allocation_ptr.index as int].inner is Some,
            forall|ty: &mut TypeEnum| map.requires((ty,)),
        ensures
            r is Ok <==> allocation_ptr.index < old(self).slots().len(),
            r is Err ==> *final(self) == *old(self),
            final(self).free_list() == old(self).free_list(),
            final(self).used() == old(self).used(),
            final(self).task_counters() == old(self).task_counters(),
            final(self).slots().len() == old(self).slots().len(),
            forall|j: int|
                0 <= j < old(self).slots().len() && j != allocation_ptr.index ==> final(self).slots()[j]
                    == old(self).slots()[j],
            r is Ok ==> {
                let i = allocation_ptr.index as int;
                let inner = old(self).slots()[i].inner->0;
                let after = final(self).slots()[i];
                &&& after.refcount == old(self).slots()[i].refcount
                &&& after.deallocating == old(self).slots()[i].deallocating
                &&& after.inner is Some
                &&& after.inner->0.spec_inner() == inner.spec_inner()
                &&& after.inner->0.spec_ptr() == inner.spec_ptr()
                &&& exists|t: &mut TypeEnum|
                    *t == inner.spec_ty() && map.ensures((t,), ()) && after.inner->0.spec_ty() == *final(t)
            },
    {
        assert(self.allocations.vec.len() == self.allocations.vec@.len());
        let index = allocation_ptr.as_usize();
        if index < self.allocations.vec.len() {
            match &mut self.allocations.vec[index].inner {
                Some(allocation_inner) => {
                    let ty = &mut allocation_inner.ty;
                    map(ty);
                    Ok(())
                },
                None => Err(()),
            }
        } else {
            Err(())
        }
    }
}

/// How many of `ptrs` point at the slot of `index`.
pub open spec fn count_index(ptrs: Seq<AllocationPointer>, index: u64) -> int
    decreases ptrs.len(),
{
    if ptrs.len() == 0 {
        0
    } else {
        count_index(ptrs.drop_last(), index) + if ptrs.last().index == index {
            1int
        } else {
            0int
        }
    }
}

/// The task-wise refcount changes `deltas` after one reference was added for each pointer
/// of `added` and one taken away for each pointer of `removed`: every index that any of them
/// names has a change recorded.
pub open spec fn deltas_with_references(
    deltas: Map<u64, isize>,
    added: Seq<AllocationPointer>,
    removed: Seq<AllocationPointer>,
) -> Map<u64, isize> {
    Map::new(
        |k: u64| deltas.contains_key(k) || count_index(added, k) > 0 || count_index(removed, k) > 0,
        |k: u64| (delta_or_zero(deltas, k) + count_index(added, k) - count_index(removed, k)) as isize,
    )
}

/// A pointer counted in a prefix one longer is counted once more where it names the index.
proof fn lemma_count_take(ptrs: Seq<AllocationPointer>, i: int, k: u64)
    requires
        0 <= i < ptrs.len(),
    ensures
        count_index(ptrs.take(i + 1), k) == count_index(ptrs.take(i), k) + if ptrs[i].index == k {
            1int
        } else {
            0int
        },
        count_index(ptrs.take(i), k) >= 0,
{
    assert(ptrs.take(i + 1).drop_last() =~= ptrs.take(i));
    lemma_count_nonnegative(ptrs.take(i), k);
}

/// No index is counted fewer than zero times.
proof fn lemma_count_nonnegative(ptrs: Seq<AllocationPointer>, k: u64)
    ensures
        count_index(ptrs, k) >= 0,
    decreases ptrs.len(),
{
    if ptrs.len() > 0 {
        lemma_count_nonnegative(ptrs.drop_last(), k);
    }
}

/// A prefix counts an index no more often than the whole sequence does.
proof fn lemma_count_prefix(ptrs: Seq<AllocationPointer>, i: int, k: u64)
    requires
        0 <= i <= ptrs.len(),
    ensures
        0 <= count_index(ptrs.take(i), k) <= count_index(ptrs, k),
    decreases ptrs.len() - i,
{
    lemma_count_nonnegative(ptrs.take(i), k);
    if i < ptrs.len() {
        lemma_count_take(ptrs, i, k);
        lemma_count_prefix(ptrs, i + 1, k);
    } else {
        assert(ptrs.take(i) =~= ptrs);
    }
}

/// Counting the references of `added` and `removed` keeps the change recorded for `index`
/// within the range of an `isize`, on the way up through `added` and on the way down.
pub open spec fn recordable_at(
    deltas: Map<u64, isize>,
    added: Seq<AllocationPointer>,
    removed: Seq<AllocationPointer>,
    index: u64,
) -> bool {
    &&& delta_or_zero(deltas, index) + count_index(added, index) <= isize::MAX
    &&& delta_or_zero(deltas, index) + count_index(added, index) - count_index(removed, index) >= isize::MIN
}

/// Whether the change recorded in `counter` for `index` stays in range while the references
/// of `added` and `removed` are counted.
fn index_recordable(
    counter: &TaskRefCounter,
    index: u64,
    added: &Vec<AllocationPointer>,
    removed: &Vec<AllocationPointer>,
) -> (r: bool)
    ensures
        r == recordable_at(counter.refcount_deltas@, added@, removed@, index),
{
    let delta: isize = match counter.refcount_deltas.get(&index) {
        Some(d) => *d,
        None => 0,
    };
    let up = count_pointers(added, index);
    let down = count_pointers(removed, index);
    let total: i128 = delta as i128 + up as i128;
    total <= isize::MAX as i128 && total - (down as i128) >= isize::MIN as i128
}

/// An index counted among the pointers is the index of one of them.
proof fn lemma_counted_is_listed(ptrs: Seq<AllocationPointer>, k: u64) -> (j: int)
    requires
        count_index(ptrs, k) != 0,
    ensures
        0 <= j < ptrs.len(),
        ptrs[j].index == k,
    decreases ptrs.len(),
{
    if ptrs.last().index == k {
        ptrs.len() - 1
    } else {
        let j = lemma_counted_is_listed(ptrs.drop_last(), k);
        assert(ptrs.drop_last()[j] == ptrs[j]);
        j
    }
}

/// How many of `ptrs` point at the slot of `index`.
fn count_pointers(ptrs: &Vec<AllocationPointer>, index: u64) -> (r: usize)
    ensures
        r == count_index(ptrs@, index),
{
    let mut count: usize = 0;
    let mut i: usize = 0;
    while i < ptrs.len()
        invariant
            i <= ptrs@.len(),
            count == count_index(ptrs@.take(i as int), index),
            count <= i,
        decreases ptrs@.len() - i,
    {
        proof {
            lemma_count_take(ptrs@, i as int, index);
        }
        if ptrs[i].index == index {
            count = count + 1;
        }
        i = i + 1;
    }
    assert(ptrs@.take(i as int) =~= ptrs@);
    count
}

impl<O> Allocator<O> {
    /// Whether `record_task_references` can count these references for `node`: the current
    /// schedule has a task for `node`, and no change it collects leaves the range of an `isize`.
    pub fn references_recordable(
        &self,
        node: NodeIndex,
        outputs: &Vec<AllocationPointer>,
        inputs: &Vec<AllocationPointer>,
    ) -> (r: bool)
        ensures
            r == (self.has_counter(node) && forall|k: u64|
                #[trigger] recordable_at(self.deltas(node), outputs@, inputs@, k)),
    {
        let counter = match self.task_ref_counters.counters.get(&node) {
            Some(counter) => counter,
            None => {
                return false;
            },
        };
        let ghost deltas = self.deltas(node);
        assert(counter.refcount_deltas@ == deltas);
        let mut i: usize = 0;
        while i < outputs.len()
            invariant
                i <= outputs@.len(),
                counter.refcount_deltas@ == deltas,
                deltas == self.deltas(node),
                forall|j: int| 0 <= j < i ==> recordable_at(deltas, outputs@, inputs@, #[trigger] outputs@[j].index),
            decreases outputs@.len() - i,
        {
            if !index_recordable(counter, outputs[i].index, outputs, inputs) {
                return false;
            }
            i = i + 1;
        }
        let mut i: usize = 0;
        while i < inputs.len()
            invariant
                i <= inputs@.len(),
                counter.refcount_deltas@ == deltas,
                deltas == self.deltas(node),
                forall|j: int| 0 <= j < outputs@.len() ==> recordable_at(deltas, outputs@, inputs@, #[trigger] outputs@[j].index),
                forall|j: int| 0 <= j < i ==> recordable_at(deltas, outputs@, inputs@, #[trigger] inputs@[j].index),
            decreases inputs@.len() - i,
        {
            if !index_recordable(counter, inputs[i].index, outputs, inputs) {
                return false;
            }
            i = i + 1;
        }
        proof {
            assert forall|k: u64| #[trigger] recordable_at(deltas, outputs@, inputs@, k) by {
                if count_index(outputs@, k) != 0 {
                    let j = lemma_counted_is_listed(outputs@, k);
                    assert(recordable_at(deltas, outputs@, inputs@, outputs@[j].index));
                } else if count_index(inputs@, k) != 0 {
                    let j = lemma_counted_is_listed(inputs@, k);
                    assert(recordable_at(deltas, outputs@, inputs@, inputs@[j].index));
                }
            }
        }
        true
    }

    /// Counts the references that the task of `node` hands on and gives up in one run: one
    /// owned reference more for each pointer held in its output values, one fewer for each
    /// pointer held in the values it took as inputs (borrowed, mutably borrowed or by value).
    /// The slots are left as they are; the changes take effect when
    /// `apply_owned_and_output_refcounts` applies them.
    pub fn record_task_references(
        &mut self,
        node: NodeIndex,
        outputs: &Vec<AllocationPointer>,
        inputs: &Vec<AllocationPointer>,
    )
        requires
            old(self).has_counter(node),
            forall|k: u64| #[trigger] recordable_at(old(self).deltas(node), outputs@, inputs@, k),
        ensures
            old(self).wf() ==> final(self).wf(),
            final(self).slots() == old(self).slots(),
            final(self).free_list() == old(self).free_list(),
            final(self).used() == old(self).used(),
            forall|n: NodeIndex| #[trigger] final(self).has_counter(n) == old(self).has_counter(n),
            forall|n: NodeIndex| n != node ==> #[trigger] final(self).deltas(n) == old(self).deltas(n),
            final(self).deltas(node) == deltas_with_references(old(self).deltas(node), outputs@, inputs@),
    {
        let ghost start = old(self).deltas(node);
        let ghost empty = Seq::<AllocationPointer>::empty();
        assert forall|k: u64| delta_or_zero(start, k) + #[trigger] count_index(outputs@, k) <= isize::MAX by {
            assert(recordable_at(start, outputs@, inputs@, k));
        }
        assert forall|k: u64|
            delta_or_zero(start, k) + count_index(outputs@, k) - #[trigger] count_index(inputs@, k) >= isize::MIN by {
            assert(recordable_at(start, outputs@, inputs@, k));
        }
        assert(outputs@.take(0) =~= empty);
        assert(inputs@.take(0) =~= empty);
        assert(deltas_with_references(start, empty, empty) =~= start);
        let mut i: usize = 0;
        while i < outputs.len()
            invariant
                i <= outputs@.len(),
                old(self).wf() ==> self.wf(),
                self.slots() == old(self).slots(),
                self.free_list() == old(self).free_list(),
                self.used() == old(self).used(),
                self.has_counter(node),
                forall|n: NodeIndex| #[trigger] self.has_counter(n) == old(self).has_counter(n),
                forall|n: NodeIndex| n != node ==> #[trigger] self.deltas(n) == old(self).deltas(n),
                start == old(self).deltas(node),
                forall|k: u64| delta_or_zero(start, k) + #[trigger] count_index(outputs@, k) <= isize::MAX,
                empty == Seq::<AllocationPointer>::empty(),
                self.deltas(node) == deltas_with_references(start, outputs@.take(i as int), empty),
            decreases outputs@.len() - i,
        {
            let ptr = outputs[i];
            proof {
                lemma_count_prefix(outputs@, i + 1, ptr.index);
                lemma_count_take(outputs@, i as int, ptr.index);
            }
            let _ = self.refcount_owned_increment(ptr, node);
            proof {
                assert forall|k: u64| #![auto] true implies count_index(outputs@.take(i + 1), k) == count_index(
                    outputs@.take(i as int),
                    k,
                ) + if outputs@[i as int].index == k {
                    1int
                } else {
                    0int
                } by {
                    lemma_count_take(outputs@, i as int, k);
                }
                assert(self.deltas(node) =~= deltas_with_references(start, outputs@.take(i + 1), empty));
            }
            i = i + 1;
        }
        assert(outputs@.take(i as int) =~= outputs@);
        let ghost added = self.deltas(node);
        let mut j: usize = 0;
        while j < inputs.len()
            invariant
                j <= inputs@.len(),
                i == outputs@.len(),
                old(self).wf() ==> self.wf(),
                self.slots() == old(self).slots(),
                self.free_list() == old(self).free_list(),
                self.used() == old(self).used(),
                self.has_counter(node),
                forall|n: NodeIndex| #[trigger] self.has_counter(n) == old(self).has_counter(n),
                forall|n: NodeIndex| n != node ==> #[trigger] self.deltas(n) == old(self).deltas(n),
                start == old(self).deltas(node),
                forall|k: u64| delta_or_zero(start, k) + #[trigger] count_index(outputs@, k) <= isize::MAX,
                forall|k: u64|
                    delta_or_zero(start, k) + count_index(outputs@, k) - #[trigger] count_index(inputs@, k)
                        >= isize::MIN,
                self.deltas(node) == deltas_with_references(start, outputs@, inputs@.take(j as int)),
            decreases inputs@.len() - j,
        {
            let ptr = inputs[j];
            proof {
                lemma_count_prefix(inputs@, j + 1, ptr.index);
                lemma_count_take(inputs@, j as int, ptr.index);
                lemma_count_nonnegative(outputs@, ptr.index);
            }
            let _ = self.refcount_owned_decrement(ptr, node);
            proof {
                assert forall|k: u64| #![auto] true implies count_index(inputs@.take(j + 1), k) == count_index(
                    inputs@.take(j as int),
                    k,
                ) + if inputs@[j as int].index == k {
                    1int
                } else {
                    0int
                } by {
                    lemma_count_take(inputs@, j as int, k);
                }
                assert(self.deltas(node) =~= deltas_with_references(start, outputs@, inputs@.take(j + 1)));
            }
            j = j + 1;
        }
        assert(inputs@.take(j as int) =~= inputs@);
    }
}

/// Freed indices are handed out first-in first-out: an index freed while other indices are
/// free waits behind them, and one freed while none is free is handed out next.
pub proof fn lemma_free_list_fifo<O>(a: Allocator<O>, b: Allocator<O>, index: u64)
    requires
        b.free_list() == a.free_list().push(index),
        b.used() == a.used(),
    ensures
        a.free_list().len() > 0 ==> b.next_index() == a.next_index() && b.free_after_next()
            == a.free_after_next().push(index),
        a.free_list().len() == 0 ==> b.next_index() == index && b.free_after_next().len() == 0,
{
    if a.free_list().len() > 0 {
        assert(b.free_list().drop_first() =~= a.free_list().drop_first().push(index));
    }
}

} // verus!
