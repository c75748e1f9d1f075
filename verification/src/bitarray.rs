//! Trusted boundary around `bit_vec::BitVec`, the bit-array container that
//! backs both numeric kinds.
//!
//! The container is modelled as a sequence of booleans, least-significant
//! flag first, through the uninterpreted function [`bits`]. Each wrapper
//! states over that model what the crate's source shows of the method it
//! calls; everything built on top of these wrappers is verified.

use vstd::prelude::*;

verus! {

#[verifier::external_type_specification]
#[verifier::external_body]
#[verifier::reject_recursive_types(B)]
pub struct ExBitVec<B>(bit_vec::BitVec<B>);

/// The sequence of boolean flags a `bit_vec::BitVec` holds, index 0 first.
pub uninterp spec fn bits(v: bit_vec::BitVec) -> Seq<bool>;

/// Relies on `bit_vec::BitVec::from_elem`: a vector of `len` bits, each set
/// to `bit`.
#[verifier::external_body]
pub(crate) fn bv_from_elem(len: usize, bit: bool) -> (r: bit_vec::BitVec)
    ensures
        bits(r) =~= Seq::new(len as nat, |i: int| bit),
{
    bit_vec::BitVec::from_elem(len, bit)
}

/// Relies on `bit_vec::BitVec::len`: the number of bits held.
#[verifier::external_body]
pub(crate) fn bv_len(v: &bit_vec::BitVec) -> (r: usize)
    ensures
        r == bits(*v).len(),
{
    v.len()
}

/// Relies on `bit_vec::BitVec::get`: the flag at index `i`, or `None` when
/// `i` is out of range.
#[verifier::external_body]
pub(crate) fn bv_get(v: &bit_vec::BitVec, i: usize) -> (r: Option<bool>)
    ensures
        r == (if i < bits(*v).len() {
            Some(bits(*v)[i as int])
        } else {
            None::<bool>
        }),
{
    v.get(i)
}

/// Relies on `bit_vec::BitVec::set`: writes the flag at index `i`, which must
/// be in range (the method panics otherwise).
#[verifier::external_body]
pub(crate) fn bv_set(v: &mut bit_vec::BitVec, i: usize, x: bool)
    requires
        i < bits(*old(v)).len(),
    ensures
        bits(*final(v)) =~= bits(*old(v)).update(i as int, x),
{
    v.set(i, x)
}

/// Relies on `bit_vec::BitVec::negate`: flips every bit in place.
#[verifier::external_body]
pub(crate) fn bv_negate(v: &mut bit_vec::BitVec)
    ensures
        bits(*final(v)) =~= Seq::new(bits(*old(v)).len(), |i: int| !bits(*old(v))[i]),
{
    v.negate()
}

/// Relies on `<bit_vec::BitVec as PartialEq>::eq`: true exactly when both
/// vectors hold the same number of bits with the same values.
#[verifier::external_body]
pub(crate) fn bv_eq(a: &bit_vec::BitVec, b: &bit_vec::BitVec) -> (r: bool)
    ensures
        r <==> bits(*a) =~= bits(*b),
{
    a == b
}

} // verus!
