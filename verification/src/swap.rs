//! Exchanging two integers: in place through mutable references, or by
//! returning the reordered pair.

use vstd::prelude::*;

verus! {

/// The pair with its two components exchanged.
pub open spec fn spec_swap(p: (i32, i32)) -> (i32, i32) {
    (p.1, p.0)
}

/// Exchange the contents of two integer slots in place. The side effect is
/// visible to the caller through the same two references.
pub fn swap_by_ref(a: &mut i32, b: &mut i32)
    ensures
        *final(a) == *old(b),
        *final(b) == *old(a),
        (*final(a), *final(b)) == spec_swap((*old(a), *old(b))),
{
    let tmp: i32 = *a;
    *a = *b;
    *b = tmp;
}

/// Exchange two integers by value: the reordered pair is returned and the
/// caller must rebind its own variables to observe the change.
pub fn swap_by_val(a: i32, b: i32) -> (r: (i32, i32))
    ensures
        r == (b, a),
        r == spec_swap((a, b)),
{
    (b, a)
}

/// Swapping a pair twice gives back the original pair, so either swap form
/// applied twice restores the values it started from.
pub proof fn lemma_swap_involution(p: (i32, i32))
    ensures
        spec_swap(spec_swap(p)) == p,
{
}

} // verus!
