//! The signed numeric kind: a fixed-width integer under the standard
//! two's-complement interpretation, whose top bit is the sign bit.

use vstd::prelude::*;
use vstd::arithmetic::power2::*;
use core::cmp::Ordering;

use crate::bitarray::{bits, bv_eq, bv_get, bv_len};
use crate::error::NumError;
use crate::model::{
    in_signed_range, lemma_neg_val_sval, lemma_sval_in_range, lemma_uval_bound,
    lemma_uval_injective, lemma_uval_top, neg_val, negated_sval, skey, sval, uval,
};
use crate::ripple::{copy_bits, make_bits, raw_add, read_low_bits, scan_cmp, twos_comp_bits};

verus! {

/// A fixed-width signed integer stored as a bit array: index 0 is the
/// least-significant bit and the top index is the sign bit. Its value is
/// `sval` of its view.
#[derive(Debug)]
pub struct SignedInt {
    bv: bit_vec::BitVec,
}

impl View for SignedInt {
    type V = Seq<bool>;

    closed spec fn view(&self) -> Seq<bool> {
        bits(self.bv)
    }
}

impl SignedInt {
    /// Wide enough for the 63 magnitude bits that construction writes plus
    /// headroom and a sign bit.
    #[verifier::type_invariant]
    spec fn wf(self) -> bool {
        self@.len() >= 64
    }

    /// Builds the width-`size` two's-complement encoding of `val`: the
    /// magnitude is decomposed over bits 62 down to 0, and a negative input
    /// is then passed through two's-complement negation. A width below 64
    /// bits cannot hold the magnitude range and a sign bit and is refused as
    /// degenerate.
    pub fn new(val: i64, size: usize) -> (r: Result<SignedInt, NumError>)
        requires
            val != i64::MIN,
        ensures
            match r {
                Ok(s) => size >= 64 && s@.len() == size && sval(s@) == val,
                Err(e) => e == NumError::DegenerateWidth && size < 64,
            },
    {
        if size < 64 {
            return Err(NumError::DegenerateWidth);
        }
        let neg = val < 0;
        let mag: u64 = if val < 0 {
            (-(val as i128)) as u64
        } else {
            val as u64
        };
        proof {
            lemma2_to64_rest();
        }
        let bv = make_bits(mag, size);
        if neg {
            let nbv = twos_comp_bits(&bv);
            proof {
                lemma_uval_top(bits(nbv));
                lemma_uval_bound(bits(nbv));
                lemma_pow2_unfold(size as nat);
                if size > 64 {
                    lemma_pow2_strictly_increases(63, (size - 1) as nat);
                }
            }
            Ok(SignedInt { bv: nbv })
        } else {
            proof {
                lemma_uval_top(bits(bv));
                lemma_pow2_unfold(size as nat);
                if size > 64 {
                    lemma_pow2_strictly_increases(63, (size - 1) as nat);
                }
            }
            Ok(SignedInt { bv })
        }
    }

    /// Extracts the native value encoded by the lowest 64 bits, decoded as a
    /// two's-complement word; bits beyond position 63 take no part, so the
    /// result equals the full value exactly when that value fits the 64-bit
    /// window.
    pub fn get_val(&self) -> (r: i64)
        ensures
            r == sval(self@.take(64)),
    {
        proof {
            use_type_invariant(&*self);
        }
        let ghost win = self@.take(64);
        let ret: u64 = read_low_bits(&self.bv);
        proof {
            lemma_uval_top(win);
            lemma_uval_bound(win);
            lemma2_to64();
            lemma2_to64_rest();
        }
        if ret < 0x8000000000000000u64 {
            ret as i64
        } else {
            let m = u64::MAX - ret;
            -(m as i64) - 1
        }
    }

    /// Two's-complement negation: complement every bit of a copy, then add
    /// one. The minimum value of a width negates to itself; every other
    /// value comes back exactly negated.
    pub fn twos_comp(&self) -> (r: SignedInt)
        ensures
            r@.len() == self@.len(),
            uval(r@) == neg_val(uval(self@), self@.len()),
            sval(r@) == negated_sval(self@),
    {
        proof {
            use_type_invariant(&*self);
        }
        let nbv = twos_comp_bits(&self.bv);
        proof {
            lemma_neg_val_sval(self@, bits(nbv));
        }
        SignedInt { bv: nbv }
    }

    /// A bit-for-bit copy.
    pub fn copy(&self) -> (r: SignedInt)
        ensures
            r@ =~= self@,
    {
        proof {
            use_type_invariant(&*self);
        }
        SignedInt { bv: copy_bits(&self.bv) }
    }

    /// Whether the sign bit is set, which is exactly a negative value.
    pub fn is_neg(&self) -> (r: bool)
        ensures
            r == self@.last(),
            r <==> sval(self@) < 0,
    {
        proof {
            use_type_invariant(&*self);
        }
        let len = bv_len(&self.bv);
        let r = bv_get(&self.bv, len - 1).unwrap();
        proof {
            lemma_uval_top(self@);
            lemma_uval_bound(self@);
        }
        r
    }

    /// Ripple-carry addition. Operands of different widths are refused; a
    /// sum that the common width cannot encode — which arises exactly when
    /// the operands agree in sign and the raw result does not — is a fatal
    /// signed overflow.
    pub fn add(self, other: SignedInt) -> (r: Result<SignedInt, NumError>)
        ensures
            match r {
                Ok(v) => {
                    &&& self@.len() == other@.len()
                    &&& v@.len() == self@.len()
                    &&& in_signed_range(sval(self@) + sval(other@), self@.len())
                    &&& sval(v@) == sval(self@) + sval(other@)
                },
                Err(e) => {
                    ||| (e == NumError::WidthMismatch && self@.len() != other@.len())
                    ||| (e == NumError::SignedOverflow && self@.len() == other@.len()
                        && !in_signed_range(sval(self@) + sval(other@), self@.len()))
                },
            },
    {
        proof {
            use_type_invariant(&self);
            use_type_invariant(&other);
        }
        let la = bv_len(&self.bv);
        let lb = bv_len(&other.bv);
        if la != lb {
            return Err(NumError::WidthMismatch);
        }
        let ta = self.is_neg();
        let tb = other.is_neg();
        let ghost a0 = self@;
        let ghost b0 = other@;
        let SignedInt { bv: mut bv } = self;
        let carry = raw_add(&mut bv, &other.bv);
        let res = SignedInt { bv };
        let tr = res.is_neg();
        proof {
            let w = a0.len();
            let p = pow2(w) as int;
            let h = pow2((w - 1) as nat) as int;
            lemma_uval_top(a0);
            lemma_uval_top(b0);
            lemma_uval_top(res@);
            lemma_uval_bound(a0);
            lemma_uval_bound(b0);
            lemma_uval_bound(res@);
            lemma_pow2_unfold(w);
            lemma_pow2_pos((w - 1) as nat);
            let ua = uval(a0) as int;
            let ub = uval(b0) as int;
            let ur = uval(res@) as int;
            assert(ur + (if carry { p } else { 0 }) == ua + ub);
            assert(sval(a0) == ua - (if ta { p } else { 0 }));
            assert(sval(b0) == ub - (if tb { p } else { 0 }));
            assert(sval(res@) == ur - (if tr { p } else { 0 }));
            assert((ta == tb && tr != ta) ==> !in_signed_range(sval(a0) + sval(b0), w));
            assert(!(ta == tb && tr != ta) ==> sval(res@) == sval(a0) + sval(b0));
            lemma_sval_in_range(res@);
        }
        if ta == tb && tr != ta {
            Err(NumError::SignedOverflow)
        } else {
            Ok(res)
        }
    }

    /// Subtraction: addition of the two's complement of `other`. The value
    /// subtracted is therefore `negated_sval(other@)`, which differs from
    /// the plain negation only when `other` is the minimum of its width.
    pub fn sub(self, other: SignedInt) -> (r: Result<SignedInt, NumError>)
        ensures
            match r {
                Ok(v) => {
                    &&& self@.len() == other@.len()
                    &&& v@.len() == self@.len()
                    &&& in_signed_range(sval(self@) + negated_sval(other@), self@.len())
                    &&& sval(v@) == sval(self@) + negated_sval(other@)
                },
                Err(e) => {
                    ||| (e == NumError::WidthMismatch && self@.len() != other@.len())
                    ||| (e == NumError::SignedOverflow && self@.len() == other@.len()
                        && !in_signed_range(sval(self@) + negated_sval(other@), self@.len()))
                },
            },
    {
        let n = other.twos_comp();
        self.add(n)
    }

    /// Three-way comparison of same-width values, ordered by [`skey`]:
    /// a value with the sign bit set stands below one without; two
    /// non-negative values are ordered by their magnitudes, scanned from the
    /// most significant bit down; two negative values are first negated and
    /// the same rule is applied to the pair of negations.
    pub fn cmp(&self, other: &SignedInt) -> (r: Ordering)
        requires
            self@.len() == other@.len(),
        ensures
            (r == Ordering::Equal) <==> self@ =~= other@,
            (r == Ordering::Less) <==> skey(self@) < skey(other@),
            (r == Ordering::Greater) <==> skey(self@) > skey(other@),
    {
        proof {
            use_type_invariant(&*self);
            use_type_invariant(&*other);
            lemma_uval_top(self@);
            lemma_uval_top(other@);
            lemma_uval_bound(self@);
            lemma_uval_bound(other@);
            lemma_pow2_unfold(self@.len());
            lemma_pow2_pos((self@.len() - 1) as nat);
        }
        let equal = bv_eq(&self.bv, &other.bv);
        if equal {
            return Ordering::Equal;
        }
        let sn = self.is_neg();
        let on = other.is_neg();
        if sn && !on {
            return Ordering::Less;
        }
        if !sn && on {
            return Ordering::Greater;
        }
        if !sn && !on {
            return scan_cmp(&self.bv, &other.bv);
        }
        let ns = self.twos_comp();
        let no = other.twos_comp();
        let nsn = ns.is_neg();
        let non = no.is_neg();
        proof {
            lemma_uval_top(ns@);
            lemma_uval_top(no@);
            lemma_uval_bound(ns@);
            lemma_uval_bound(no@);
            if nsn && non {
                lemma_uval_injective(self@, other@);
            }
        }
        if nsn && !non {
            return Ordering::Less;
        }
        if !nsn && non {
            return Ordering::Greater;
        }
        let r = scan_cmp(&ns.bv, &no.bv);
        proof {
            if ns@ =~= no@ {
                lemma_uval_injective(self@, other@);
            }
        }
        r
    }

    /// The flag at position `i`, least-significant first, or a report that
    /// the position lies beyond the width.
    pub fn bit(&self, i: usize) -> (r: Result<bool, NumError>)
        ensures
            match r {
                Ok(b) => i < self@.len() && b == self@[i as int],
                Err(e) => e == NumError::UninitializedBitAccess && i >= self@.len(),
            },
    {
        match bv_get(&self.bv, i) {
            Some(b) => Ok(b),
            None => Err(NumError::UninitializedBitAccess),
        }
    }

    /// Every flag, least significant first; the diagnostic rendering of the
    /// underlying bit sequence.
    pub fn bits(&self) -> (r: Vec<bool>)
        ensures
            r@ =~= self@,
    {
        proof {
            use_type_invariant(&*self);
        }
        let len = bv_len(&self.bv);
        let mut out: Vec<bool> = Vec::new();
        let mut i: usize = 0;
        while i < len
            invariant
                bits(self.bv).len() == len,
                i <= len,
                out@.len() == i as nat,
                forall|k: int| 0 <= k < i as int ==> out@[k] == bits(self.bv)[k],
            decreases len - i,
        {
            let b = bv_get(&self.bv, i).unwrap();
            out.push(b);
            i = i + 1;
        }
        out
    }
}

impl PartialEq for SignedInt {
    /// Bitwise array equality.
    fn eq(&self, other: &SignedInt) -> (r: bool) {
        bv_eq(&self.bv, &other.bv)
    }
}

impl Eq for SignedInt {}

impl vstd::std_specs::cmp::PartialEqSpecImpl for SignedInt {
    open spec fn obeys_eq_spec() -> bool {
        true
    }

    open spec fn eq_spec(&self, other: &SignedInt) -> bool {
        self@ == other@
    }
}

impl PartialOrd for SignedInt {
    /// Three-way comparison lifted to `PartialOrd`: values of different
    /// widths are unordered, same-width values follow [`SignedInt::cmp`].
    fn partial_cmp(&self, other: &SignedInt) -> (r: Option<Ordering>) {
        proof {
            use_type_invariant(&*self);
            use_type_invariant(&*other);
        }
        let la = bv_len(&self.bv);
        let lb = bv_len(&other.bv);
        if la != lb {
            return None;
        }
        Some(self.cmp(other))
    }
}

impl vstd::std_specs::cmp::PartialOrdSpecImpl for SignedInt {
    open spec fn obeys_partial_cmp_spec() -> bool {
        true
    }

    open spec fn partial_cmp_spec(&self, other: &SignedInt) -> Option<Ordering> {
        if self@.len() == other@.len() {
            Some(
                if self@ == other@ {
                    Ordering::Equal
                } else if skey(self@) < skey(other@) {
                    Ordering::Less
                } else {
                    Ordering::Greater
                },
            )
        } else {
            None
        }
    }
}

} // verus!
