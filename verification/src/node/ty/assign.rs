//! Exchanging the contents of two typed values.

use vstd::prelude::*;

use super::{abi_compatible, value_size, wf, TypeEnum};

verus! {

/// Whether the values of `ty_a` and `ty_b` can be swapped: the types are compatible and
/// both sized.
pub open spec fn swappable(ty_a: TypeEnum, ty_b: TypeEnum) -> bool {
    abi_compatible(ty_a, ty_b) == Some(true) && value_size(ty_a) is Some && value_size(ty_b) is Some
}

/// Swaps the value `a` of type `ty_a` with the value `b` of type `ty_b`, given by their bytes.
/// `Err`, changing nothing, where the types are not compatible or one of them is unsized.
/// The references the values hold move with them: the counters of the two sides take them over
/// with `Allocator::record_task_references`, given the pointers that `pointers_in_value` finds.
pub fn swap_values(ty_a: &TypeEnum, a: &mut [u8], ty_b: &TypeEnum, b: &mut [u8]) -> (r: Result<(), ()>)
    requires
        wf(*ty_a),
        wf(*ty_b),
        abi_compatible(*ty_a, *ty_b) is Some,
        swappable(*ty_a, *ty_b) ==> old(a)@.len() == old(b)@.len(),
    ensures
        r is Ok <==> swappable(*ty_a, *ty_b),
        r is Err ==> final(a)@ == old(a)@ && final(b)@ == old(b)@,
        r is Ok ==> final(a)@ == old(b)@ && final(b)@ == old(a)@,
{
    if !ty_a.is_abi_compatible(ty_b) {
        return Err(());
    }
    if ty_a.value_size_if_sized().is_none() || ty_b.value_size_if_sized().is_none() {
        return Err(());
    }
    let mut i: usize = 0;
    while i < a.len()
        invariant
            a@.len() == old(a)@.len(),
            b@.len() == old(b)@.len(),
            old(a)@.len() == old(b)@.len(),
            i <= a@.len(),
            forall|k: int| 0 <= k < i ==> a@[k] == old(b)@[k] && b@[k] == old(a)@[k],
            forall|k: int| i <= k < a@.len() ==> a@[k] == old(a)@[k] && b@[k] == old(b)@[k],
        decreases a@.len() - i,
    {
        let byte_a = a[i];
        let byte_b = b[i];
        a[i] = byte_b;
        b[i] = byte_a;
        i = i + 1;
    }
    assert(a@ =~= old(b)@);
    assert(b@ =~= old(a)@);
    Ok(())
}

/// Assigns the value `from` of type `ty_from` to the value `to` of type `ty_to`, by swapping
/// them: `from` is left with the old value of `to`. `Err`, changing nothing, where the values
/// cannot be swapped.
pub fn assign_value(ty_to: &TypeEnum, to: &mut [u8], ty_from: &TypeEnum, from: &mut [u8]) -> (r: Result<(), ()>)
    requires
        wf(*ty_to),
        wf(*ty_from),
        abi_compatible(*ty_to, *ty_from) is Some,
        swappable(*ty_to, *ty_from) ==> old(to)@.len() == old(from)@.len(),
    ensures
        r is Ok <==> swappable(*ty_to, *ty_from),
        r is Err ==> final(to)@ == old(to)@ && final(from)@ == old(from)@,
        r is Ok ==> final(to)@ == old(from)@ && final(from)@ == old(to)@,
{
    swap_values(ty_to, to, ty_from, from)
}

} // verus!
