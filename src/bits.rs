//! The bit array that backs a filter: `bit_vec::BitVec`, with its contents
//! seen as a sequence of booleans.
use bit_vec::BitVec;
use vstd::prelude::*;

verus! {

#[verifier::external_type_specification]
#[verifier::external_body]
#[verifier::reject_recursive_types(B)]
pub struct ExBitVec<B>(BitVec<B>);

/// The bits held by a bit vector, in index order.
pub uninterp spec fn bits_of(v: BitVec) -> Seq<bool>;

/// Relies on `BitVec::from_elem`: `nbits` bits, each equal to `bit`.
#[verifier::external_body]
pub(crate) fn bitvec_from_elem(nbits: usize, bit: bool) -> (r: BitVec)
    ensures
        bits_of(r) == Seq::new(nbits as nat, |j: int| bit),
{
    BitVec::from_elem(nbits, bit)
}

/// Relies on `BitVec::len`: the number of bits held.
#[verifier::external_body]
pub(crate) fn bitvec_len(v: &BitVec) -> (r: usize)
    ensures
        r == bits_of(*v).len(),
{
    v.len()
}

/// Relies on `BitVec::get`: the bit at `i`, or `None` past the end.
#[verifier::external_body]
pub(crate) fn bitvec_get(v: &BitVec, i: usize) -> (r: Option<bool>)
    ensures
        i < bits_of(*v).len() ==> r == Some(bits_of(*v)[i as int]),
        i >= bits_of(*v).len() ==> r is None,
{
    v.get(i)
}

/// Relies on `BitVec::set`: writes the bit at `i` and leaves the others;
/// it panics past the end, which `requires` rules out.
#[verifier::external_body]
pub(crate) fn bitvec_set(v: &mut BitVec, i: usize, x: bool)
    requires
        i < bits_of(*old(v)).len(),
    ensures
        bits_of(*final(v)) == bits_of(*old(v)).update(i as int, x),
{
    v.set(i, x)
}

} // verus!
