//! Small helpers.

use vstd::prelude::*;

use vstd::std_specs::cmp::PartialOrdSpec;

verus! {

/// The smaller of two values: `a` where `a < b`, else `b`.
pub fn partial_min<T: PartialOrd>(a: T, b: T) -> (r: T)
    ensures
        r == a || r == b,
        T::obeys_partial_cmp_spec() ==> r == if a.partial_cmp_spec(&b) == Some(
            core::cmp::Ordering::Less,
        ) {
            a
        } else {
            b
        },
{
    if a < b {
        a
    } else {
        b
    }
}

/// The larger of two values: `b` where `a < b`, else `a`.
pub fn partial_max<T: PartialOrd>(a: T, b: T) -> (r: T)
    ensures
        r == a || r == b,
        T::obeys_partial_cmp_spec() ==> r == if a.partial_cmp_spec(&b) == Some(
            core::cmp::Ordering::Less,
        ) {
            b
        } else {
            a
        },
{
    if a < b {
        b
    } else {
        a
    }
}

} // verus!
