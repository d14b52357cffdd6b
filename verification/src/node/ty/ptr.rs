use vstd::prelude::*;

use byteorder::{ByteOrder, LittleEndian};

use super::bytes::Bytes;
use super::{resolve, ty_size, value_size, wf, AllocationPointer, TypeDesc, TypeEnum};

verus! {

/// Whether values of the type are pointers, as seen by pattern resolution: a unique pointer
/// always is; a shared pointer would need a concrete child pattern, which the wildcard is not.
pub open spec fn spec_is_pointer(ty: TypeEnum) -> bool {
    resolve(TypeDesc::Shared(Box::new(TypeDesc::Wildcard)), ty) is Some || resolve(
        TypeDesc::Unique(Box::new(TypeDesc::Wildcard)),
        ty,
    ) is Some
}

pub fn is_pointer(ty: &TypeEnum) -> (r: bool)
    ensures
        r == spec_is_pointer(*ty),
{
    ty.resolve_ref(&TypeDesc::Shared(Box::new(TypeDesc::Wildcard))).is_some() || ty.resolve_ref(
        &TypeDesc::Unique(Box::new(TypeDesc::Wildcard)),
    ).is_some()
}

/// The number that the bytes encode, least significant byte first.
pub open spec fn le_value(bytes: Seq<u8>) -> nat
    decreases bytes.len(),
{
    if bytes.len() == 0 {
        0
    } else {
        bytes[0] as nat + 256 * le_value(bytes.drop_first())
    }
}

/// Calls `byteorder::LittleEndian::read_u64`: the number that the first eight bytes of `buf`
/// encode, least significant byte first.
#[verifier::external_body]
fn read_u64_le(buf: &[u8]) -> (r: u64)
    requires
        buf@.len() >= 8,
    ensures
        r == le_value(buf@.subrange(0, 8)),
{
    LittleEndian::read_u64(buf)
}

/// The pointer stored in the bytes of a pointer value.
pub fn bytes_to_ptr<O>(bytes: Bytes<'_, O>) -> (r: AllocationPointer)
    requires
        bytes is Bytes,
        bytes->Bytes_0@.len() == 8,
    ensures
        r.index == le_value(bytes->Bytes_0@),
{
    let bytes = bytes.bytes().unwrap();
    assert(bytes@.subrange(0, 8) =~= bytes@);
    AllocationPointer { index: read_u64_le(bytes) }
}

/// The pointer stored in a value of type `ty`, given by its bytes; `None` where values of the
/// type are not pointers.
pub fn typed_bytes_to_ptr<O>(bytes: Bytes<'_, O>, ty: &TypeEnum) -> (r: Option<AllocationPointer>)
    requires
        spec_is_pointer(*ty) ==> bytes is Bytes && bytes->Bytes_0@.len() == 8,
    ensures
        r is Some <==> spec_is_pointer(*ty),
        r matches Some(p) ==> p.index == le_value(bytes->Bytes_0@),
{
    if is_pointer(ty) {
        Some(bytes_to_ptr(bytes))
    } else {
        None
    }
}


/// The pointers held in a value of the sized type `ty`, given by its bytes, in the order of a
/// walk that visits the parts of a value before the value itself: the pointer that a pointer
/// value is; those of the value an option holds, where its flag says it holds one; those of
/// each item of an array, item after item; none in a primitive value. The values that the
/// pointers point at are not part of it.
pub open spec fn pointers_of(ty: TypeEnum, bytes: Seq<u8>) -> Seq<AllocationPointer>
    decreases ty_size(ty), 0nat,
{
    if spec_is_pointer(ty) {
        seq![AllocationPointer { index: le_value(bytes) as u64 }]
    } else {
        match ty {
            TypeEnum::Option(o) => match value_size(*o.child_ty) {
                Some(s) => if bytes[s as int] == 1 {
                    pointers_of(*o.child_ty, bytes.subrange(0, s as int))
                } else {
                    Seq::empty()
                },
                None => Seq::empty(),
            },
            TypeEnum::Array(a) => match value_size(*a.item_type) {
                Some(s) => items_pointers(*a.item_type, bytes, s, a.len as nat),
                None => Seq::empty(),
            },
            _ => Seq::empty(),
        }
    }
}

/// The pointers held in the first `n` items of `size` bytes each of an array of `item`.
pub open spec fn items_pointers(item: TypeEnum, bytes: Seq<u8>, size: nat, n: nat) -> Seq<AllocationPointer>
    decreases ty_size(item), n + 1,
{
    if n == 0 {
        Seq::empty()
    } else {
        items_pointers(item, bytes, size, (n - 1) as nat) + pointers_of(
            item,
            bytes.subrange((n - 1) * size, (n * size) as int),
        )
    }
}

/// Whether every option flag that the walk of `pointers_of` reads is 0 or 1.
pub open spec fn flags_valid(ty: TypeEnum, bytes: Seq<u8>) -> bool
    decreases ty_size(ty), 0nat,
{
    if spec_is_pointer(ty) {
        true
    } else {
        match ty {
            TypeEnum::Option(o) => match value_size(*o.child_ty) {
                Some(s) => bytes[s as int] <= 1 && (bytes[s as int] == 1 ==> flags_valid(
                    *o.child_ty,
                    bytes.subrange(0, s as int),
                )),
                None => true,
            },
            TypeEnum::Array(a) => match value_size(*a.item_type) {
                Some(s) => items_flags_valid(*a.item_type, bytes, s, a.len as nat),
                None => true,
            },
            _ => true,
        }
    }
}

/// Whether the flags of the first `n` items of `size` bytes each of an array of `item` are
/// valid.
pub open spec fn items_flags_valid(item: TypeEnum, bytes: Seq<u8>, size: nat, n: nat) -> bool
    decreases ty_size(item), n + 1,
{
    n == 0 || (items_flags_valid(item, bytes, size, (n - 1) as nat) && flags_valid(
        item,
        bytes.subrange((n - 1) * size, (n * size) as int),
    ))
}

/// A pointer value is a unique or shared pointer, eight bytes long.
proof fn lemma_pointer_size(ty: TypeEnum)
    requires
        spec_is_pointer(ty),
    ensures
        value_size(ty) == Some(8nat),
{
}

/// The walk of `pointers_of` over `bytes`, `None` where it reads a malformed option flag.
fn slice_pointers(ty: &TypeEnum, bytes: &[u8]) -> (r: Option<Vec<AllocationPointer>>)
    requires
        wf(*ty),
        value_size(*ty) == Some(bytes@.len()),
    ensures
        r is None <==> !flags_valid(*ty, bytes@),
        r matches Some(v) ==> v@ == pointers_of(*ty, bytes@),
    decreases ty_size(*ty),
{
    if is_pointer(ty) {
        proof {
            lemma_pointer_size(*ty);
        }
        assert(bytes@.subrange(0, 8) =~= bytes@);
        let mut found: Vec<AllocationPointer> = Vec::new();
        found.push(AllocationPointer { index: read_u64_le(bytes) });
        assert(found@ =~= pointers_of(*ty, bytes@));
        return Some(found);
    }
    match ty {
        TypeEnum::Option(o) => {
            let size = o.child_ty.value_size_if_sized().unwrap();
            let flag = bytes[size];
            if flag > 1 {
                None
            } else if flag == 1 {
                slice_pointers(&o.child_ty, &bytes[0..size])
            } else {
                Some(Vec::new())
            }
        },
        TypeEnum::Array(a) => {
            let size = a.item_type.value_size_if_sized().unwrap();
            let ghost item = *a.item_type;
            let mut found: Vec<AllocationPointer> = Vec::new();
            let mut i: usize = 0;
            assert(bytes@.len() == bytes.len());
            while i < a.len
                invariant
                    i <= a.len,
                    wf(item),
                    value_size(item) == Some(size as nat),
                    a.len * size == bytes@.len(),
                    bytes@.len() <= usize::MAX,
                    ty_size(item) < ty_size(*ty),
                    *a.item_type == item,
                    flags_valid(*ty, bytes@) == items_flags_valid(item, bytes@, size as nat, a.len as nat),
                    pointers_of(*ty, bytes@) == items_pointers(item, bytes@, size as nat, a.len as nat),
                    items_flags_valid(item, bytes@, size as nat, i as nat),
                    found@ == items_pointers(item, bytes@, size as nat, i as nat),
                decreases a.len - i,
            {
                proof {
                    vstd::arithmetic::mul::lemma_mul_inequality((i + 1) as int, a.len as int, size as int);
                    vstd::arithmetic::mul::lemma_mul_is_distributive_add_other_way(size as int, i as int, 1);
                    assert((i + 1) * size == i * size + size);
                }
                let start = i * size;
                let end = start + size;
                let part_bytes = &bytes[start..end];
                assert(part_bytes@ == bytes@.subrange(i * size, (i + 1) * size));
                match slice_pointers(&a.item_type, part_bytes) {
                    Some(mut part) => {
                        found.append(&mut part);
                    },
                    None => {
                        proof {
                            if items_flags_valid(item, bytes@, size as nat, a.len as nat) {
                                lemma_items_flags_prefix(item, bytes@, size as nat, a.len as nat, (i + 1) as nat);
                                assert(flags_valid(item, bytes@.subrange(i * size, (i + 1) * size)));
                            }
                        }
                        return None;
                    },
                }
                i = i + 1;
            }
            Some(found)
        },
        _ => Some(Vec::new()),
    }
}

/// Valid flags in the first `n` items mean valid flags in each shorter prefix of them.
proof fn lemma_items_flags_prefix(item: TypeEnum, bytes: Seq<u8>, size: nat, n: nat, m: nat)
    requires
        m <= n,
        items_flags_valid(item, bytes, size, n),
    ensures
        items_flags_valid(item, bytes, size, m),
    decreases n,
{
    if m < n {
        lemma_items_flags_prefix(item, bytes, size, (n - 1) as nat, m);
    }
}

/// The pointers held in a value of the sized type `ty`, as `pointers_of` lists them; `None`
/// where an option flag in it is malformed.
pub fn pointers_in_value<O>(ty: &TypeEnum, bytes: Bytes<'_, O>) -> (r: Option<Vec<AllocationPointer>>)
    requires
        wf(*ty),
        bytes is Bytes,
        value_size(*ty) == Some(bytes->Bytes_0@.len()),
    ensures
        r is None <==> !flags_valid(*ty, bytes->Bytes_0@),
        r matches Some(v) ==> v@ == pointers_of(*ty, bytes->Bytes_0@),
{
    let data = bytes.bytes().unwrap();
    slice_pointers(ty, data)
}

} // verus!
