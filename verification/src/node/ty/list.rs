use vstd::prelude::*;

use super::bytes::range_mut;
use super::{safe_binary_representation, value_size, wf, ListType, TypeEnum};

verus! {

/// What a list allocation is created from: the type of its items.
#[derive(Debug)]
pub struct ListDescriptor {
    pub child_ty: TypeEnum,
}

impl ListDescriptor {
    /// A descriptor for a list of a sized item type.
    pub fn new(child_ty: TypeEnum) -> (r: Self)
        requires
            value_size(child_ty) is Some,
        ensures
            r.child_ty == child_ty,
    {
        ListDescriptor { child_ty }
    }

    /// A descriptor for a list of `child_ty`, if that type is sized.
    pub fn new_if_sized(child_ty: TypeEnum) -> (r: Option<Self>)
        requires
            wf(child_ty),
        ensures
            r is Some <==> value_size(child_ty) is Some,
            r matches Some(d) ==> d.child_ty == child_ty,
    {
        if child_ty.is_sized() {
            Some(ListDescriptor { child_ty })
        } else {
            None
        }
    }

    pub fn child_ty(&self) -> (r: &TypeEnum)
        ensures
            *r == self.child_ty,
    {
        &self.child_ty
    }

    /// Forgets what is known of the child type.
    pub fn upcast(self) -> (r: Self)
        ensures
            r == self,
    {
        self
    }

    /// The list type that allocations made from this descriptor have.
    pub fn get_type(&self) -> (r: ListType)
        ensures
            *r.child_ty == self.child_ty,
    {
        ListType { child_ty: Box::new(self.child_ty.clone()) }
    }
}

/// A heap-allocated list: `data` holds the items back to back, each `item_size` bytes long.
#[derive(Debug)]
pub struct ListAllocation {
    pub descriptor: ListDescriptor,
    pub data: Vec<u8>,
    pub item_size: usize,
}

impl ListAllocation {
    /// An empty list of items of the sized type `item_type`.
    pub fn new(item_type: TypeEnum) -> (r: Self)
        requires
            wf(item_type),
            value_size(item_type) is Some,
        ensures
            r.descriptor.child_ty == item_type,
            r.data@.len() == 0,
            r.item_size == value_size(item_type).unwrap(),
    {
        Self::from(ListDescriptor::new(item_type))
    }

    /// An empty list for the items described by a sized descriptor.
    pub fn from(descriptor: ListDescriptor) -> (r: Self)
        requires
            wf(descriptor.child_ty),
            value_size(descriptor.child_ty) is Some,
        ensures
            r.descriptor == descriptor,
            r.data@.len() == 0,
            r.item_size == value_size(descriptor.child_ty).unwrap(),
    {
        let item_size = descriptor.child_ty().value_size_if_sized().unwrap();
        ListAllocation { item_size, descriptor: descriptor.upcast(), data: Vec::new() }
    }

    /// The number of items.
    pub fn len(&self) -> (r: usize)
        requires
            self.item_size > 0,
        ensures
            r == self.data@.len() / (self.item_size as nat),
    {
        self.data.len() / self.item_size
    }

    /// Appends an item, given by its bytes, which must be exactly one item long.
    pub fn push(&mut self, item: &[u8])
        requires
            item@.len() == old(self).item_size,
        ensures
            final(self).data@ == old(self).data@ + item@,
            final(self).item_size == old(self).item_size,
            final(self).descriptor == old(self).descriptor,
    {
        self.data.extend_from_slice(item);
        assert(self.data@ =~= old(self).data@ + item@);
    }

    /// Removes the bytes of one item from the end; fails on an empty list.
    pub fn pop(&mut self) -> (r: Result<(), ()>)
        requires
            old(self).data@.len() == 0 || old(self).data@.len() >= old(self).item_size,
        ensures
            r is Err <==> old(self).data@.len() == 0,
            r is Err ==> final(self).data@ == old(self).data@,
            r is Ok ==> final(self).data@ == old(self).data@.subrange(
                0,
                old(self).data@.len() - old(self).item_size,
            ),
            final(self).item_size == old(self).item_size,
            final(self).descriptor == old(self).descriptor,
    {
        if self.data.len() > 0 {
            let new_len = self.data.len() - self.item_size;
            self.data.truncate(new_len);
            assert(self.data@ =~= old(self).data@.subrange(0, new_len as int));
            Ok(())
        } else {
            Err(())
        }
    }

    /// The bytes of the item at `index`, which are only handed out when that item ends
    /// exactly at the end of the data.
    pub fn get(&self, index: usize) -> (r: Option<&[u8]>)
        requires
            index < usize::MAX,
            (index + 1) * self.item_size <= self.data@.len(),
        ensures
            r is Some <==> (index + 1) * self.item_size == self.data@.len(),
            r matches Some(bytes) ==> bytes@ == self.data@.subrange(
                index * self.item_size,
                (index + 1) * self.item_size,
            ),
    {
        let len = self.data.len();
        proof {
            assert(index * self.item_size <= (index + 1) * self.item_size) by (nonlinear_arith);
            assert((index + 1) * self.item_size <= len);
        }
        let start_index = index * self.item_size;
        let end_index = (index + 1) * self.item_size;

        if end_index >= self.data.len() {
            Some(vstd::slice::slice_subrange(self.data.as_slice(), start_index, end_index))
        } else {
            None
        }
    }

    /// Mutable access to the bytes of the item at `index`, which is only handed out when that
    /// item ends exactly at the end of the data.
    pub fn get_mut(&mut self, index: usize) -> (r: Option<&mut [u8]>)
        requires
            index < usize::MAX,
            (index + 1) * old(self).item_size <= old(self).data@.len(),
        ensures
            r is Some <==> (index + 1) * old(self).item_size == old(self).data@.len(),
            r is None ==> *final(self) == *old(self),
            r matches Some(bytes) ==> bytes@ == old(self).data@.subrange(
                index * old(self).item_size,
                (index + 1) * old(self).item_size,
            ),
            r matches Some(bytes) ==> final(self).data@ == old(self).data@.subrange(
                0,
                index * old(self).item_size,
            ) + final(bytes)@,
            final(self).item_size == old(self).item_size,
            final(self).descriptor == old(self).descriptor,
    {
        let len = self.data.len();
        proof {
            assert(index * self.item_size <= (index + 1) * self.item_size) by (nonlinear_arith);
            assert((index + 1) * self.item_size <= len);
        }
        let start_index = index * self.item_size;
        let end_index = (index + 1) * self.item_size;

        if end_index >= self.data.len() {
            let r = range_mut(self.data.as_mut_slice(), start_index, end_index);
            Some(r)
        } else {
            None
        }
    }
}

impl ListType {
    /// The number of items in `list`, counted by the size of this type's items.
    pub fn len(&self, list: &ListAllocation) -> (r: usize)
        requires
            wf(TypeEnum::List(*self)),
            value_size(*self.child_ty).unwrap() > 0,
        ensures
            r == list.data@.len() / value_size(*self.child_ty).unwrap(),
    {
        let item_size = self.child_ty.value_size_if_sized().unwrap();
        list.data.len() / item_size
    }

    /// The bytes of the item at `index` in `list`; `Err` where the list is too short to hold
    /// it.
    pub fn get<'a>(&self, list: &'a ListAllocation, index: usize) -> (r: Result<&'a [u8], ()>)
        requires
            wf(TypeEnum::List(*self)),
            index < usize::MAX,
            (index + 1) * value_size(*self.child_ty).unwrap() <= usize::MAX,
        ensures
            ({
                let size = value_size(*self.child_ty).unwrap();
                &&& r is Err <==> (index + 1) * size > list.data@.len()
                &&& r matches Ok(bytes) ==> bytes@ == list.data@.subrange(index * size, (index + 1) * size)
            }),
    {
        let item_size = self.child_ty.value_size_if_sized().unwrap();
        proof {
            assert(index * item_size <= (index + 1) * item_size) by (nonlinear_arith);
        }
        if (index + 1) * item_size > list.data.len() {
            Err(())
        } else {
            Ok(&list.data.as_slice()[index * item_size..(index + 1) * item_size])
        }
    }

    /// Mutable access to the bytes of the item at `index` in `list`; `Err` where the list is
    /// too short to hold it. What is written there is written to the list.
    pub fn get_mut<'a>(&self, list: &'a mut ListAllocation, index: usize) -> (r: Result<&'a mut [u8], ()>)
        requires
            wf(TypeEnum::List(*self)),
            index < usize::MAX,
            (index + 1) * value_size(*self.child_ty).unwrap() <= usize::MAX,
        ensures
            ({
                let size = value_size(*self.child_ty).unwrap();
                let data = old(list).data@;
                &&& r is Err <==> (index + 1) * size > data.len()
                &&& r is Err ==> *final(list) == *old(list)
                &&& r matches Ok(bytes) ==> bytes@ == data.subrange(index * size, (index + 1) * size)
                    && final(list).data@ == data.subrange(0, index * size) + final(bytes)@
                    + data.subrange((index + 1) * size, data.len() as int)
                &&& final(list).item_size == old(list).item_size
                &&& final(list).descriptor == old(list).descriptor
            }),
    {
        let item_size = self.child_ty.value_size_if_sized().unwrap();
        proof {
            assert(index * item_size <= (index + 1) * item_size) by (nonlinear_arith);
        }
        if (index + 1) * item_size > list.data.len() {
            Err(())
        } else {
            Ok(range_mut(list.data.as_mut_slice(), index * item_size, (index + 1) * item_size))
        }
    }

    /// Appends a zeroed item to `list` and lets `write_bytes` write it; `Err`, with the list
    /// unchanged, where the item type does not have a safe binary representation. Such a type
    /// holds no pointer, so the new item holds no reference to count.
    pub fn push_item_bytes_with<F: FnOnce(&mut [u8])>(&self, list: &mut ListAllocation, write_bytes: F) -> (r:
        Result<(), ()>)
        requires
            wf(TypeEnum::List(*self)),
            safe_binary_representation(*self.child_ty) ==> value_size(*self.child_ty).unwrap() > 0
                && old(list).data@.len() + value_size(*self.child_ty).unwrap() <= usize::MAX,
            forall|bytes: &mut [u8]| write_bytes.requires((bytes,)),
        ensures
            r is Err <==> !safe_binary_representation(*self.child_ty),
            r is Err ==> *final(list) == *old(list),
            final(list).item_size == old(list).item_size,
            final(list).descriptor == old(list).descriptor,
            r is Ok ==> {
                let size = value_size(*self.child_ty).unwrap() as int;
                let grown = old(list).data@ + Seq::new(size as nat, |i: int| 0u8);
                let start = ((grown.len() as int) / size - 1) * size;
                exists|item: &mut [u8]|
                    item@ == grown.subrange(start, start + size) && write_bytes.ensures((item,), ())
                        && final(list).data@ == grown.subrange(0, start) + final(item)@ + grown.subrange(
                        start + size,
                        grown.len() as int,
                    )
            },
    {
        if !self.child_ty.has_safe_binary_representation() {
            return Err(());
        }
        let child_size = self.child_ty.value_size_if_sized().unwrap();
        let zeros = vec![0u8; child_size];
        list.data.extend_from_slice(zeros.as_slice());
        let ghost grown = list.data@;
        assert(grown =~= old(list).data@ + Seq::new(child_size as nat, |i: int| 0u8));
        let len = self.len(list);
        proof {
            let n = grown.len() as int;
            let size = child_size as int;
            assert(len >= 1) by (nonlinear_arith)
                requires
                    n >= size,
                    size > 0,
                    len == n / size,
            ;
            assert(len * size <= n) by (nonlinear_arith)
                requires
                    size > 0,
                    len == n / size,
            ;
        }
        let item_bytes = match self.get_mut(list, len - 1) {
            Ok(item_bytes) => item_bytes,
            Err(e) => {
                return Err(e);
            },
        };
        proof {
            assert((len - 1) * child_size + child_size == len * child_size) by (nonlinear_arith);
        }
        write_bytes(item_bytes);
        proof {
            let size = child_size as int;
            let start = ((grown.len() as int) / size - 1) * size;
            assert(start == (len - 1) * child_size);
        }
        Ok(())
    }
}

/// Pushing an item and popping one leaves the bytes as they were, and pushing adds exactly
/// one item to the length.
pub proof fn lemma_push_pop(data: Seq<u8>, item: Seq<u8>, item_size: nat)
    requires
        item.len() == item_size,
        item_size > 0,
    ensures
        (data + item).subrange(0, (data + item).len() - item_size) == data,
        (data + item).len() / item_size == data.len() / item_size + 1,
{
    assert((data + item).subrange(0, (data + item).len() - item_size) =~= data);
    vstd::arithmetic::div_mod::lemma_div_plus_one(data.len() as int, item_size as int);
}

} // verus!
