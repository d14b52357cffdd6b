use vstd::prelude::*;

use crate::graph::allocator::{deltas_with_references, recordable_at, Allocator};
use crate::graph::NodeIndex;
use crate::node::behaviour::AllocatorHandle;

use super::bytes::{range_mut, Bytes};
use super::ptr::{flags_valid, pointers_of};
use super::reference::OwnedRefMut;
use super::{value_size, wf, OptionType, TypeEnum};

verus! {

/// The flag byte stored after the child value of an option value.
#[derive(Debug, Clone, Copy, PartialEq, Eq, Structural)]
pub enum OptionFlags {
    Vacant,
    Occupied,
}

impl OptionFlags {
    /// The byte that encodes the flag.
    pub open spec fn spec_byte(self) -> u8 {
        match self {
            OptionFlags::Vacant => 0,
            OptionFlags::Occupied => 1,
        }
    }

    /// Decoding the byte of a flag gives the flag back: the byte is 0 or 1, and no two flags
    /// share it.
    pub proof fn lemma_byte_roundtrip(self, other: OptionFlags)
        ensures
            self.spec_byte() <= 1,
            self.spec_byte() == other.spec_byte() ==> self == other,
    {
    }

    pub fn as_byte(self) -> (r: u8)
        ensures
            r == self.spec_byte(),
    {
        match self {
            OptionFlags::Vacant => 0,
            OptionFlags::Occupied => 1,
        }
    }

    /// Decodes a flag byte; any byte other than 0 and 1 is malformed.
    pub fn try_from(value: u8) -> (r: Result<Self, ()>)
        ensures
            r matches Ok(f) ==> f.spec_byte() == value,
            r is Err <==> value > 1,
    {
        if value == 0 {
            Ok(OptionFlags::Vacant)
        } else if value == 1 {
            Ok(OptionFlags::Occupied)
        } else {
            Err(())
        }
    }
}

impl OptionType {
    /// Reads the flag of an option value given by its bytes.
    pub fn get_flags(&self, data: &[u8]) -> (r: OptionFlags)
        requires
            wf(TypeEnum::Option(*self)),
            data@.len() > value_size(*self.child_ty).unwrap(),
            data@[value_size(*self.child_ty).unwrap() as int] <= 1,
        ensures
            r.spec_byte() == data@[value_size(*self.child_ty).unwrap() as int],
    {
        let value_size = self.child_ty.value_size_if_sized().unwrap();
        match OptionFlags::try_from(data[value_size]) {
            Ok(flags) => flags,
            Err(_) => {
                proof {
                    assert(false);
                }
                OptionFlags::Vacant
            },
        }
    }

    /// Writes the flag of an option value given by its bytes.
    pub fn set_flags(&self, data: &mut Vec<u8>, flags: OptionFlags)
        requires
            wf(TypeEnum::Option(*self)),
            old(data)@.len() > value_size(*self.child_ty).unwrap(),
        ensures
            final(data)@ == old(data)@.update(
                value_size(*self.child_ty).unwrap() as int,
                flags.spec_byte(),
            ),
    {
        let value_size = self.child_ty.value_size_if_sized().unwrap();
        data.set(value_size, flags.as_byte());
    }
}

impl OptionType {
    /// Whether the option value given by its bytes holds a value.
    pub fn is_some(&self, data: &[u8]) -> (r: bool)
        requires
            wf(TypeEnum::Option(*self)),
            data@.len() > value_size(*self.child_ty).unwrap(),
            data@[value_size(*self.child_ty).unwrap() as int] <= 1,
        ensures
            r == (data@[value_size(*self.child_ty).unwrap() as int] == 1),
    {
        self.get_flags(data) == OptionFlags::Occupied
    }

    /// Whether the option value given by its bytes is empty.
    pub fn is_none(&self, data: &[u8]) -> (r: bool)
        requires
            wf(TypeEnum::Option(*self)),
            data@.len() > value_size(*self.child_ty).unwrap(),
            data@[value_size(*self.child_ty).unwrap() as int] <= 1,
        ensures
            r == (data@[value_size(*self.child_ty).unwrap() as int] == 0),
    {
        !self.is_some(data)
    }

    /// The bytes of the value that the option value given by its bytes holds; `None` where it
    /// is empty.
    pub fn get_bytes<'a>(&self, data: &'a [u8]) -> (r: Option<&'a [u8]>)
        requires
            wf(TypeEnum::Option(*self)),
            data@.len() > value_size(*self.child_ty).unwrap(),
            data@[value_size(*self.child_ty).unwrap() as int] <= 1,
        ensures
            r is Some <==> data@[value_size(*self.child_ty).unwrap() as int] == 1,
            r matches Some(b) ==> b@ == data@.subrange(0, value_size(*self.child_ty).unwrap() as int),
    {
        let value_size = self.child_ty.value_size_if_sized().unwrap();
        match self.get_flags(data) {
            OptionFlags::Vacant => None,
            OptionFlags::Occupied => Some(&data[0..value_size]),
        }
    }

    /// Mutable access to the value that the option value given by its bytes holds; `None`
    /// where it is empty. What is written there is written to the option value.
    pub fn get_bytes_mut<'a>(&self, data: &'a mut [u8]) -> (r: Option<&'a mut [u8]>)
        requires
            wf(TypeEnum::Option(*self)),
            old(data)@.len() > value_size(*self.child_ty).unwrap(),
            old(data)@[value_size(*self.child_ty).unwrap() as int] <= 1,
        ensures
            r is Some <==> old(data)@[value_size(*self.child_ty).unwrap() as int] == 1,
            r is None ==> final(data)@ == old(data)@,
            r matches Some(b) ==> {
                let size = value_size(*self.child_ty).unwrap() as int;
                &&& b@ == old(data)@.subrange(0, size)
                &&& final(data)@ == final(b)@ + old(data)@.subrange(size, old(data)@.len() as int)
            },
    {
        let value_size = self.child_ty.value_size_if_sized().unwrap();
        if self.is_some(data) {
            let child = range_mut(data, 0, value_size);
            assert(old(data)@.subrange(0, 0) + child@ =~= child@);
            Some(child)
        } else {
            None
        }
    }
}

impl OptionType {
    /// Takes the value out of the option value given by its bytes: where it holds one, its
    /// flag is cleared and a copy of the value is returned, owned by the state of `handle`'s
    /// node, which counts the references the copy holds; `None`, changing nothing, where it is
    /// empty.
    pub fn take<O>(&self, data: &mut [u8], handle: AllocatorHandle, allocator: &mut Allocator<O>) -> (r: Option<
        OwnedRefMut,
    >)
        requires
            wf(TypeEnum::Option(*self)),
            old(data)@.len() == value_size(TypeEnum::Option(*self)).unwrap(),
            old(data)@[value_size(*self.child_ty).unwrap() as int] <= 1,
            old(data)@[value_size(*self.child_ty).unwrap() as int] == 1 ==> {
                let child = old(data)@.subrange(0, value_size(*self.child_ty).unwrap() as int);
                &&& flags_valid(*self.child_ty, child)
                &&& old(allocator).has_counter(handle.node)
                &&& forall|k: u64|
                    #[trigger] recordable_at(
                        old(allocator).deltas(handle.node),
                        pointers_of(*self.child_ty, child),
                        Seq::empty(),
                        k,
                    )
            },
        ensures
            r is Some <==> old(data)@[value_size(*self.child_ty).unwrap() as int] == 1,
            r is None ==> final(data)@ == old(data)@ && *final(allocator) == *old(allocator),
            r matches Some(o) ==> {
                let size = value_size(*self.child_ty).unwrap() as int;
                let child = old(data)@.subrange(0, size);
                &&& o.spec_ty() == *self.child_ty
                &&& o.spec_bytes() == child
                &&& o.spec_node() == handle.node
                &&& final(data)@ == old(data)@.update(size, OptionFlags::Vacant.spec_byte())
                &&& old(allocator).wf() ==> final(allocator).wf()
                &&& final(allocator).slots() == old(allocator).slots()
                &&& final(allocator).free_list() == old(allocator).free_list()
                &&& final(allocator).used() == old(allocator).used()
                &&& forall|n: NodeIndex| #[trigger] final(allocator).has_counter(n) == old(allocator).has_counter(n)
                &&& forall|n: NodeIndex|
                    n != handle.node ==> #[trigger] final(allocator).deltas(n) == old(allocator).deltas(n)
                &&& final(allocator).deltas(handle.node) == deltas_with_references(
                    old(allocator).deltas(handle.node),
                    pointers_of(*self.child_ty, child),
                    Seq::empty(),
                )
            },
    {
        let size = self.child_ty.value_size_if_sized().unwrap();
        if !self.is_some(data) {
            return None;
        }
        data[size] = OptionFlags::Vacant.as_byte();
        let child = &data[0..size];
        assert(child@ =~= old(data)@.subrange(0, size as int));
        OwnedRefMut::copied_with_unchecked_type_if_sized(Bytes::<()>::Bytes(child), &self.child_ty, handle, allocator)
    }
}

/// Writing a flag and reading it back gives the flag that was written.
pub proof fn lemma_flags_roundtrip(data: Seq<u8>, index: int, flags: OptionFlags)
    requires
        0 <= index < data.len(),
    ensures
        data.update(index, flags.spec_byte())[index] == flags.spec_byte(),
        data.update(index, flags.spec_byte())[index] <= 1,
{
}

} // verus!
