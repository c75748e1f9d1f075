//! The verified bit-level engine shared by the signed and the unsigned kind:
//! binary decomposition of a native magnitude, bitwise copy, ripple-carry
//! addition, two's-complement negation, and top-down comparison.

use vstd::prelude::*;
use vstd::arithmetic::power2::*;
use vstd::bits::*;
use core::cmp::Ordering;

use crate::bitarray::{bits, bv_from_elem, bv_get, bv_len, bv_negate, bv_set};
use crate::model::{
    lemma_uval_bound, lemma_uval_complement, lemma_uval_scan, lemma_uval_take_succ,
    lemma_uval_update, lemma_uval_zero, neg_val, uval,
};

verus! {

/// Builds a `size`-bit array holding the magnitude `val`, by testing the
/// descending powers of two from 62 down to 0 against the remainder and
/// greedily subtracting; bits 63 and above start at zero and stay there.
pub(crate) fn make_bits(val: u64, size: usize) -> (r: bit_vec::BitVec)
    requires
        val < pow2(63),
        size >= 64,
    ensures
        bits(r).len() == size,
        uval(bits(r)) == val,
{
    let mut bv = bv_from_elem(size, false);
    proof {
        lemma_uval_zero(bits(bv));
    }
    let mut to_add: u64 = val;
    let mut pow: usize = 63;
    while pow > 0
        invariant
            bits(bv).len() == size,
            size >= 64,
            pow <= 63,
            to_add < pow2(pow as nat),
            uval(bits(bv)) + to_add == val,
            forall|k: int| 0 <= k < pow as int ==> !bits(bv)[k],
        decreases pow,
    {
        proof {
            lemma_pow2_unfold(pow as nat);
        }
        pow = pow - 1;
        proof {
            lemma_u64_pow2_no_overflow(pow as nat);
            lemma_u64_shl_is_mul(1u64, pow as u64);
        }
        let p: u64 = 1u64 << (pow as u64);
        if p <= to_add {
            to_add = to_add - p;
            proof {
                lemma_uval_update(bits(bv), pow as int, true);
            }
            bv_set(&mut bv, pow, true);
        }
    }
    proof {
        lemma2_to64();
    }
    bv
}

/// Rebuilds the bit array position by position, from the top down, as the
/// copy routine of the original container does.
pub(crate) fn copy_bits(v: &bit_vec::BitVec) -> (r: bit_vec::BitVec)
    requires
        bits(*v).len() >= 64,
    ensures
        bits(r) =~= bits(*v),
{
    let len = bv_len(v);
    let mut r = bv_from_elem(len, false);
    let mut count = len;
    while count > 0
        invariant
            bits(r).len() == len,
            bits(*v).len() == len,
            count <= len,
            forall|k: int| count <= k < len as int ==> bits(r)[k] == bits(*v)[k],
        decreases count,
    {
        count = count - 1;
        let b = bv_get(v, count).unwrap();
        bv_set(&mut r, count, b);
    }
    assert(bits(r) =~= bits(*v));
    r
}

/// Ripple-carry addition in place: adds `b` into `a` from the least
/// significant position upward, propagating the carry by the full-adder
/// rule, and returns the carry out of the top position.
pub(crate) fn raw_add(a: &mut bit_vec::BitVec, b: &bit_vec::BitVec) -> (carry: bool)
    requires
        bits(*old(a)).len() == bits(*b).len(),
    ensures
        bits(*final(a)).len() == bits(*old(a)).len(),
        uval(bits(*final(a))) + (if carry {
            pow2(bits(*old(a)).len())
        } else {
            0nat
        }) == uval(bits(*old(a))) + uval(bits(*b)),
{
    let ghost a0 = bits(*old(a));
    let len = bv_len(a);
    let mut i: usize = 0;
    let mut carry: bool = false;
    while i < len
        invariant
            bits(*a).len() == len,
            bits(*b).len() == len,
            a0.len() == len,
            i <= len,
            forall|k: int| i <= k < len as int ==> bits(*a)[k] == a0[k],
            uval(bits(*a).take(i as int)) + (if carry {
                pow2(i as nat)
            } else {
                0nat
            }) == uval(a0.take(i as int)) + uval(bits(*b).take(i as int)),
        decreases len - i,
    {
        let sa = bv_get(a, i).unwrap();
        let sb = bv_get(b, i).unwrap();
        let new_bit = (sa != sb) != carry;
        let new_carry = (sa && sb) || (sa && carry) || (sb && carry);
        let ghost pre = bits(*a);
        proof {
            lemma_uval_take_succ(a0, i as int);
            lemma_uval_take_succ(bits(*b), i as int);
            lemma_pow2_unfold((i + 1) as nat);
        }
        bv_set(a, i, new_bit);
        proof {
            assert(bits(*a).take(i as int) =~= pre.take(i as int));
            lemma_uval_take_succ(bits(*a), i as int);
        }
        carry = new_carry;
        i = i + 1;
    }
    proof {
        assert(bits(*a).take(len as int) =~= bits(*a));
        assert(a0.take(len as int) =~= a0);
        assert(bits(*b).take(len as int) =~= bits(*b));
    }
    carry
}

/// Two's-complement negation of the array: complement every bit of a copy,
/// then add the same-width representation of one; the carry out, which
/// arises exactly for a zero operand, is discarded.
pub(crate) fn twos_comp_bits(v: &bit_vec::BitVec) -> (r: bit_vec::BitVec)
    requires
        bits(*v).len() >= 64,
    ensures
        bits(r).len() == bits(*v).len(),
        uval(bits(r)) == neg_val(uval(bits(*v)), bits(*v).len()),
{
    let len = bv_len(v);
    proof {
        lemma2_to64();
        lemma_pow2_strictly_increases(0, 63);
    }
    let one = make_bits(1, len);
    let mut ret = copy_bits(v);
    proof {
        lemma_uval_complement(bits(ret));
    }
    bv_negate(&mut ret);
    let _carry = raw_add(&mut ret, &one);
    proof {
        lemma_uval_bound(bits(ret));
        lemma_uval_bound(bits(*v));
        lemma_pow2_pos(len as nat);
    }
    ret
}

/// Sums `2^i` over the set flags among the lowest 64 bit positions: the
/// native word that value extraction inspects. Flags beyond position 63
/// take no part.
pub(crate) fn read_low_bits(v: &bit_vec::BitVec) -> (r: u64)
    requires
        bits(*v).len() >= 64,
    ensures
        r == uval(bits(*v).take(64)),
{
    proof {
        assert(bits(*v).take(0) =~= Seq::<bool>::empty());
    }
    let mut pow: usize = 0;
    let mut ret: u64 = 0;
    while pow < 64
        invariant
            bits(*v).len() >= 64,
            pow <= 64,
            ret == uval(bits(*v).take(pow as int)),
        decreases 64 - pow,
    {
        proof {
            lemma_uval_take_succ(bits(*v), pow as int);
            lemma_uval_bound(bits(*v).take(pow as int));
            lemma_u64_pow2_no_overflow(pow as nat);
            lemma_u64_shl_is_mul(1u64, pow as u64);
            lemma_pow2_unfold((pow + 1) as nat);
            if pow + 1 < 64 {
                lemma_pow2_strictly_increases((pow + 1) as nat, 64);
            }
            lemma2_to64();
        }
        let b = bv_get(v, pow).unwrap();
        if b {
            ret = ret + (1u64 << (pow as u64));
        }
        pow = pow + 1;
    }
    ret
}

/// Three-way comparison of two same-width magnitudes by scanning bit
/// positions from the most significant downward; the first position where
/// the two differ decides.
pub(crate) fn scan_cmp(a: &bit_vec::BitVec, b: &bit_vec::BitVec) -> (r: Ordering)
    requires
        bits(*a).len() == bits(*b).len(),
    ensures
        (r == Ordering::Equal) <==> bits(*a) =~= bits(*b),
        (r == Ordering::Less) <==> uval(bits(*a)) < uval(bits(*b)),
        (r == Ordering::Greater) <==> uval(bits(*a)) > uval(bits(*b)),
{
    let len = bv_len(a);
    let mut count = len;
    while count > 0
        invariant
            bits(*a).len() == len,
            bits(*b).len() == len,
            count <= len,
            forall|k: int| count <= k < len as int ==> bits(*a)[k] == bits(*b)[k],
        decreases count,
    {
        count = count - 1;
        let ba = bv_get(a, count).unwrap();
        let bb = bv_get(b, count).unwrap();
        if ba && !bb {
            proof {
                lemma_uval_scan(bits(*a), bits(*b), count as int);
            }
            return Ordering::Greater;
        }
        if !ba && bb {
            proof {
                lemma_uval_scan(bits(*b), bits(*a), count as int);
            }
            return Ordering::Less;
        }
    }
    assert(bits(*a) =~= bits(*b));
    Ordering::Equal
}

} // verus!
