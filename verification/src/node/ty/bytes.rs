//! Borrowed views of the contents of an allocation: plain bytes, or an object.

use vstd::prelude::*;

use super::{safe_binary_representation, value_size, wf, TypeEnum};

verus! {

/// Mutable access to the bytes `start..end` of `bytes`; what is written through the result is
/// written there, and the bytes around stay as they were.
pub fn range_mut(bytes: &mut [u8], start: usize, end: usize) -> (r: &mut [u8])
    requires
        start <= end <= old(bytes)@.len(),
    ensures
        r@ == old(bytes)@.subrange(start as int, end as int),
        final(bytes)@ == old(bytes)@.subrange(0, start as int) + final(r)@ + old(bytes)@.subrange(
            end as int,
            old(bytes)@.len() as int,
        ),
{
    let (head, rest) = bytes.split_at_mut(start);
    let (middle, tail) = rest.split_at_mut(end - start);
    middle
}

/// A shared view of the contents of an allocation.
#[derive(Debug)]
pub enum Bytes<'a, O> {
    Bytes(&'a [u8]),
    Object { ty_name: &'static str, data: &'a O },
}

impl<'a, O> Bytes<'a, O> {
    /// A view with a shorter lifetime.
    pub fn borrow(&self) -> (r: Bytes<'_, O>)
        ensures
            r == *self,
    {
        match self {
            Bytes::Bytes(inner) => Bytes::Bytes(*inner),
            Bytes::Object { ty_name, data } => Bytes::Object { ty_name: *ty_name, data: *data },
        }
    }

    /// The bytes from `start` to `end`; `None` for an object.
    pub fn bytes_slice(self, start: usize, end: usize) -> (r: Option<Bytes<'a, O>>)
        requires
            self is Bytes ==> start <= end <= self->Bytes_0@.len(),
        ensures
            r is Some <==> self is Bytes,
            r matches Some(b) ==> b is Bytes && b->Bytes_0@ == self->Bytes_0@.subrange(
                start as int,
                end as int,
            ),
    {
        match self {
            Bytes::Bytes(bytes) => Some(Bytes::Bytes(&bytes[start..end])),
            _ => None,
        }
    }

    /// The bytes; `None` for an object.
    pub fn bytes(self) -> (r: Option<&'a [u8]>)
        ensures
            r is Some <==> self is Bytes,
            r matches Some(b) ==> b@ == self->Bytes_0@,
    {
        match self {
            Bytes::Bytes(inner) => Some(inner),
            _ => None,
        }
    }

    /// The object; the contents must be an object.
    pub fn downcast_ref_unwrap(self) -> (r: &'a O)
        requires
            self is Object,
        ensures
            *r == *self->data,
    {
        match self {
            Bytes::Object { data, .. } => data,
            Bytes::Bytes(_) => {
                assert(false);
                unreached()
            },
        }
    }

    /// The object; `None` for bytes.
    pub fn object(self) -> (r: Option<&'a O>)
        ensures
            r is Some <==> self is Object,
            r matches Some(d) ==> *d == *self->data,
    {
        match self {
            Bytes::Object { data, .. } => Some(data),
            _ => None,
        }
    }
}

/// A mutable view of the contents of an allocation.
pub enum BytesMut<'a, O> {
    Bytes(&'a mut [u8]),
    Object { ty_name: &'static str, data: &'a mut O },
}

impl<'a, O> BytesMut<'a, O> {
    /// A shared view of the same contents.
    pub fn downgrade(self) -> (r: Bytes<'a, O>)
        ensures
            r is Bytes <==> self is Bytes,
            r matches Bytes::Bytes(b) ==> b@ == self->Bytes_0@,
            r matches Bytes::Object { ty_name, data } ==> ty_name == self->ty_name && *data
                == *self->data,
            self is Bytes ==> final(self->Bytes_0)@ == self->Bytes_0@,
            self is Object ==> *final(self->data) == *self->data,
    {
        match self {
            BytesMut::Bytes(inner) => Bytes::Bytes(inner),
            BytesMut::Object { ty_name, data } => Bytes::Object { ty_name, data },
        }
    }

    /// A mutable view of the same contents, for as long as `self` is borrowed.
    pub fn borrow_mut(&mut self) -> (r: BytesMut<'_, O>)
        ensures
            r is Bytes <==> *old(self) is Bytes,
            *final(self) is Bytes <==> *old(self) is Bytes,
            r matches BytesMut::Bytes(b) ==> {
                &&& b@ == old(self)->Bytes_0@
                &&& final(self)->Bytes_0@ == final(b)@
                &&& final(final(self)->Bytes_0)@ == final(old(self)->Bytes_0)@
            },
            r matches BytesMut::Object { ty_name, data } ==> {
                &&& ty_name == old(self)->ty_name
                &&& *data == *old(self)->data
                &&& final(self)->ty_name == ty_name
                &&& *final(self)->data == *final(data)
                &&& *final(final(self)->data) == *final(old(self)->data)
            },
    {
        match self {
            BytesMut::Bytes(inner) => BytesMut::Bytes(&mut **inner),
            BytesMut::Object { ty_name, data } => BytesMut::Object { ty_name: *ty_name, data: &mut **data },
        }
    }

    /// A shared view of the contents, for as long as `self` is borrowed.
    pub fn borrow(&self) -> (r: Bytes<'_, O>)
        ensures
            r is Bytes <==> *self is Bytes,
            r matches Bytes::Bytes(b) ==> b@ == self->Bytes_0@,
            r matches Bytes::Object { ty_name, data } ==> ty_name == self->ty_name && *data
                == *self->data,
    {
        match self {
            BytesMut::Bytes(inner) => Bytes::Bytes(&**inner),
            BytesMut::Object { ty_name, data } => Bytes::Object { ty_name: *ty_name, data: &**data },
        }
    }

    /// The bytes from `start` to `end`; `None` for an object.
    pub fn bytes_slice_mut(self, start: usize, end: usize) -> (r: Option<BytesMut<'a, O>>)
        requires
            self is Bytes ==> start <= end <= self->Bytes_0@.len(),
        ensures
            r is Some <==> self is Bytes,
            r matches Some(b) ==> {
                &&& b is Bytes
                &&& b->Bytes_0@ == self->Bytes_0@.subrange(start as int, end as int)
                &&& final(self->Bytes_0)@ == self->Bytes_0@.subrange(0, start as int)
                    + final(b->Bytes_0)@ + self->Bytes_0@.subrange(end as int, self->Bytes_0@.len() as int)
            },
    {
        match self {
            BytesMut::Bytes(bytes) => Some(BytesMut::Bytes(range_mut(bytes, start, end))),
            _ => None,
        }
    }

    /// The bytes from `start` to `end`, shared; `None` for an object.
    pub fn bytes_slice(self, start: usize, end: usize) -> (r: Option<Bytes<'a, O>>)
        requires
            self is Bytes ==> start <= end <= self->Bytes_0@.len(),
        ensures
            r is Some <==> self is Bytes,
            r matches Some(b) ==> b is Bytes && b->Bytes_0@ == self->Bytes_0@.subrange(
                start as int,
                end as int,
            ),
    {
        match self {
            BytesMut::Bytes(bytes) => Some(Bytes::Bytes(&bytes[start..end])),
            _ => None,
        }
    }

    /// The bytes, shared; `None` for an object.
    pub fn bytes(self) -> (r: Option<&'a [u8]>)
        ensures
            r is Some <==> self is Bytes,
            r matches Some(b) ==> b@ == self->Bytes_0@,
    {
        match self {
            BytesMut::Bytes(inner) => Some(&*inner),
            _ => None,
        }
    }

    /// The object, shared; `None` for bytes.
    pub fn object(self) -> (r: Option<&'a O>)
        ensures
            r is Some <==> self is Object,
            r matches Some(d) ==> *d == *self->data,
    {
        match self {
            BytesMut::Object { data, .. } => Some(&*data),
            _ => None,
        }
    }

    /// The bytes; `None` for an object.
    pub fn bytes_mut(self) -> (r: Option<&'a mut [u8]>)
        ensures
            r is Some <==> self is Bytes,
            r matches Some(b) ==> b@ == self->Bytes_0@,
            r matches Some(b) ==> final(b)@ == final(self->Bytes_0)@,
    {
        match self {
            BytesMut::Bytes(inner) => Some(inner),
            _ => None,
        }
    }

    /// The object; `None` for bytes.
    pub fn object_mut(self) -> (r: Option<&'a mut O>)
        ensures
            r is Some <==> self is Object,
            r matches Some(d) ==> *d == *self->data,
            r matches Some(d) ==> *final(d) == *final(self->data),
    {
        match self {
            BytesMut::Object { data, .. } => Some(data),
            _ => None,
        }
    }

    /// The object, shared; the contents must be an object.
    pub fn downcast_ref_unwrap(self) -> (r: &'a O)
        requires
            self is Object,
        ensures
            *r == *self->data,
    {
        match self {
            BytesMut::Object { data, .. } => &*data,
            BytesMut::Bytes(_) => {
                assert(false);
                unreached()
            },
        }
    }

    /// The object; the contents must be an object.
    pub fn downcast_mut_unwrap(self) -> (r: &'a mut O)
        requires
            self is Object,
        ensures
            *r == *self->data,
            *final(r) == *final(self->data),
    {
        match self {
            BytesMut::Object { data, .. } => data,
            BytesMut::Bytes(_) => {
                assert(false);
                unreached()
            },
        }
    }
}

/// The bytes of a value of type `ty`, where the type is sized and its bytes may be read as
/// they are; `None` for other types.
pub fn bytes_if_sized<'a, O>(ty: &TypeEnum, bytes: Bytes<'a, O>) -> (r: Option<&'a [u8]>)
    requires
        wf(*ty),
        value_size(*ty) is Some && safe_binary_representation(*ty) ==> bytes is Bytes,
    ensures
        r is Some <==> value_size(*ty) is Some && safe_binary_representation(*ty),
        r matches Some(b) ==> b@ == bytes->Bytes_0@,
{
    if ty.value_size_if_sized().is_some() && ty.has_safe_binary_representation() {
        Some(bytes.bytes().unwrap())
    } else {
        None
    }
}

/// Mutable access to the bytes of a value of type `ty`, where the type is sized and its bytes
/// may be written as they are; `None` for other types.
pub fn bytes_mut_if_sized<'a, O>(ty: &TypeEnum, bytes: BytesMut<'a, O>) -> (r: Option<&'a mut [u8]>)
    requires
        wf(*ty),
        value_size(*ty) is Some && safe_binary_representation(*ty) ==> bytes is Bytes,
    ensures
        r is Some <==> value_size(*ty) is Some && safe_binary_representation(*ty),
        r matches Some(b) ==> b@ == bytes->Bytes_0@ && final(b)@ == final(bytes->Bytes_0)@,
{
    if ty.value_size_if_sized().is_some() && ty.has_safe_binary_representation() {
        Some(bytes.bytes_mut().unwrap())
    } else {
        None
    }
}

} // verus!
