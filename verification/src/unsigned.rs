//! The unsigned numeric kind: structurally the same bit array as the signed
//! kind, but the top bit participates in magnitude. The arithmetic contracts
//! demand that operands and results keep that top bit clear; a violation is
//! a fatal overflow or underflow, never a silent wrap-around.

use vstd::prelude::*;
use vstd::arithmetic::power2::*;
use core::cmp::Ordering;

use crate::bitarray::{bits, bv_eq, bv_get, bv_len};
use crate::error::NumError;
use crate::model::{lemma_uval_bound, lemma_uval_top, neg_val, uval};
use crate::ripple::{copy_bits, make_bits, raw_add, read_low_bits, scan_cmp, twos_comp_bits};

verus! {

/// A fixed-width unsigned integer stored as a bit array: index 0 is the
/// least-significant bit. Its value is `uval` of its view.
#[derive(Debug)]
pub struct UnsignedInt {
    bv: bit_vec::BitVec,
}

impl View for UnsignedInt {
    type V = Seq<bool>;

    closed spec fn view(&self) -> Seq<bool> {
        bits(self.bv)
    }
}

impl UnsignedInt {
    /// Wide enough for the 63 magnitude bits that construction writes plus
    /// headroom for the top bit, which the contracts keep clear.
    #[verifier::type_invariant]
    spec fn wf(self) -> bool {
        self@.len() >= 64
    }

    /// Builds the width-`size` encoding of the magnitude `val`, decomposed
    /// over bits 62 down to 0; the magnitude must therefore stay below
    /// `2^63`. A width below 64 bits is refused as degenerate.
    pub fn new(val: u64, size: usize) -> (r: Result<UnsignedInt, NumError>)
        requires
            val < pow2(63),
        ensures
            match r {
                Ok(s) => size >= 64 && s@.len() == size && uval(s@) == val && !s@.last(),
                Err(e) => e == NumError::DegenerateWidth && size < 64,
            },
    {
        if size < 64 {
            return Err(NumError::DegenerateWidth);
        }
        let bv = make_bits(val, size);
        proof {
            lemma_uval_top(bits(bv));
            lemma_pow2_unfold(size as nat);
            if size > 64 {
                lemma_pow2_strictly_increases(63, (size - 1) as nat);
            }
        }
        Ok(UnsignedInt { bv })
    }

    /// Extracts the native value encoded by the lowest 64 bits; bits beyond
    /// position 63 take no part, so the result equals the full magnitude
    /// exactly when that magnitude fits the 64-bit window.
    pub fn get_val(&self) -> (r: u64)
        ensures
            r == uval(self@.take(64)),
    {
        proof {
            use_type_invariant(&*self);
        }
        read_low_bits(&self.bv)
    }

    /// Two's-complement negation of the bit pattern: complement every bit of
    /// a copy, then add one. The result is the magnitude `neg_val` assigns;
    /// it is no valid unsigned value unless the operand was zero, and serves
    /// as the internal step of subtraction.
    pub fn twos_comp(&self) -> (r: UnsignedInt)
        ensures
            r@.len() == self@.len(),
            uval(r@) == neg_val(uval(self@), self@.len()),
    {
        proof {
            use_type_invariant(&*self);
        }
        UnsignedInt { bv: twos_comp_bits(&self.bv) }
    }

    /// A bit-for-bit copy.
    pub fn copy(&self) -> (r: UnsignedInt)
        ensures
            r@ =~= self@,
    {
        proof {
            use_type_invariant(&*self);
        }
        UnsignedInt { bv: copy_bits(&self.bv) }
    }

    /// Whether the top bit is set — the pattern an unsigned contract calls
    /// "negative" and refuses as an operand or an addition result.
    pub fn is_neg(&self) -> (r: bool)
        ensures
            r == self@.last(),
            r <==> uval(self@) >= pow2((self@.len() - 1) as nat),
    {
        proof {
            use_type_invariant(&*self);
        }
        let len = bv_len(&self.bv);
        let r = bv_get(&self.bv, len - 1).unwrap();
        proof {
            lemma_uval_top(self@);
        }
        r
    }

    /// Ripple-carry addition. Operands of different widths are refused; an
    /// operand with its top bit set, or a sum that reaches the top bit, is a
    /// fatal unsigned overflow — no wrap-around is permitted.
    pub fn add(self, other: UnsignedInt) -> (r: Result<UnsignedInt, NumError>)
        ensures
            match r {
                Ok(v) => {
                    &&& self@.len() == other@.len()
                    &&& v@.len() == self@.len()
                    &&& !self@.last() && !other@.last()
                    &&& uval(self@) + uval(other@) < pow2((self@.len() - 1) as nat)
                    &&& uval(v@) == uval(self@) + uval(other@)
                    &&& !v@.last()
                },
                Err(e) => {
                    ||| (e == NumError::WidthMismatch && self@.len() != other@.len())
                    ||| (e == NumError::UnsignedOverflow && self@.len() == other@.len()
                        && (self@.last() || other@.last() || uval(self@) + uval(other@)
                            >= pow2((self@.len() - 1) as nat)))
                },
            },
    {
        proof {
            use_type_invariant(&self);
            use_type_invariant(&other);
        }
        let la = bv_len(&self.bv);
        let lb = bv_len(&other.bv);
        if la != lb {
            return Err(NumError::WidthMismatch);
        }
        let sn = self.is_neg();
        let on = other.is_neg();
        if sn || on {
            return Err(NumError::UnsignedOverflow);
        }
        let ghost a0 = self@;
        let ghost b0 = other@;
        let UnsignedInt { bv: mut bv } = self;
        let carry = raw_add(&mut bv, &other.bv);
        let res = UnsignedInt { bv };
        let tr = res.is_neg();
        proof {
            let w = a0.len();
            lemma_uval_top(a0);
            lemma_uval_top(b0);
            lemma_uval_top(res@);
            lemma_uval_bound(a0);
            lemma_uval_bound(b0);
            lemma_uval_bound(res@);
            lemma_pow2_unfold(w);
            lemma_pow2_pos((w - 1) as nat);
        }
        if tr {
            Err(NumError::UnsignedOverflow)
        } else {
            Ok(res)
        }
    }

    /// Subtraction: addition of the two's complement of `other`, after both
    /// operands are checked non-negative. A subtrahend that exceeds the
    /// minuend would need a negative result and is a fatal underflow, never
    /// a wrapped value.
    pub fn sub(self, other: UnsignedInt) -> (r: Result<UnsignedInt, NumError>)
        ensures
            match r {
                Ok(v) => {
                    &&& !self@.last() && !other@.last()
                    &&& self@.len() == other@.len()
                    &&& v@.len() == self@.len()
                    &&& uval(other@) <= uval(self@)
                    &&& uval(v@) == uval(self@) - uval(other@)
                    &&& !v@.last()
                },
                Err(e) => {
                    ||| (e == NumError::UnsignedOverflow && (self@.last() || other@.last()))
                    ||| (e == NumError::WidthMismatch && !self@.last() && !other@.last()
                        && self@.len() != other@.len())
                    ||| (e == NumError::UnsignedUnderflow && !self@.last() && !other@.last()
                        && self@.len() == other@.len() && uval(other@) > uval(self@))
                },
            },
    {
        proof {
            use_type_invariant(&self);
            use_type_invariant(&other);
        }
        let sn = self.is_neg();
        let on = other.is_neg();
        if sn || on {
            return Err(NumError::UnsignedOverflow);
        }
        let la = bv_len(&self.bv);
        let lb = bv_len(&other.bv);
        if la != lb {
            return Err(NumError::WidthMismatch);
        }
        let nb = twos_comp_bits(&other.bv);
        let ghost a0 = self@;
        let ghost b0 = other@;
        let UnsignedInt { bv: mut bv } = self;
        let _carry = raw_add(&mut bv, &nb);
        let res = UnsignedInt { bv };
        let tr = res.is_neg();
        proof {
            let w = a0.len();
            lemma_uval_top(a0);
            lemma_uval_top(b0);
            lemma_uval_top(res@);
            lemma_uval_bound(a0);
            lemma_uval_bound(b0);
            lemma_uval_bound(res@);
            lemma_pow2_unfold(w);
            lemma_pow2_pos((w - 1) as nat);
        }
        if tr {
            Err(NumError::UnsignedUnderflow)
        } else {
            Ok(res)
        }
    }

    /// Three-way comparison of same-width magnitudes by scanning bit
    /// positions from the most significant downward; the first position
    /// where the operands differ decides.
    pub fn cmp(&self, other: &UnsignedInt) -> (r: Ordering)
        requires
            self@.len() == other@.len(),
        ensures
            (r == Ordering::Equal) <==> self@ =~= other@,
            (r == Ordering::Less) <==> uval(self@) < uval(other@),
            (r == Ordering::Greater) <==> uval(self@) > uval(other@),
    {
        proof {
            use_type_invariant(&*self);
            use_type_invariant(&*other);
        }
        scan_cmp(&self.bv, &other.bv)
    }

    /// The flag at position `i`, least-significant first, or a report that
    /// the position lies beyond the width.
    pub fn bit(&self, i: usize) -> (r: Result<bool, NumError>)
        ensures
            match r {
                Ok(b) => i < self@.len() && b == self@[i as int],
                Err(e) => e == NumError::UninitializedBitAccess && i >= self@.len(),
            },
    {
        match bv_get(&self.bv, i) {
            Some(b) => Ok(b),
            None => Err(NumError::UninitializedBitAccess),
        }
    }

    /// Every flag, least significant first; the diagnostic rendering of the
    /// underlying bit sequence.
    pub fn bits(&self) -> (r: Vec<bool>)
        ensures
            r@ =~= self@,
    {
        proof {
            use_type_invariant(&*self);
        }
        let len = bv_len(&self.bv);
        let mut out: Vec<bool> = Vec::new();
        let mut i: usize = 0;
        while i < len
            invariant
                bits(self.bv).len() == len,
                i <= len,
                out@.len() == i as nat,
                forall|k: int| 0 <= k < i as int ==> out@[k] == bits(self.bv)[k],
            decreases len - i,
        {
            let b = bv_get(&self.bv, i).unwrap();
            out.push(b);
            i = i + 1;
        }
        out
    }
}

impl PartialEq for UnsignedInt {
    /// Bitwise array equality.
    fn eq(&self, other: &UnsignedInt) -> (r: bool) {
        bv_eq(&self.bv, &other.bv)
    }
}

impl Eq for UnsignedInt {}

impl vstd::std_specs::cmp::PartialEqSpecImpl for UnsignedInt {
    open spec fn obeys_eq_spec() -> bool {
        true
    }

    open spec fn eq_spec(&self, other: &UnsignedInt) -> bool {
        self@ == other@
    }
}

impl PartialOrd for UnsignedInt {
    /// Three-way comparison lifted to `PartialOrd`: values of different
    /// widths are unordered, same-width values follow [`UnsignedInt::cmp`].
    fn partial_cmp(&self, other: &UnsignedInt) -> (r: Option<Ordering>) {
        proof {
            use_type_invariant(&*self);
            use_type_invariant(&*other);
        }
        let la = bv_len(&self.bv);
        let lb = bv_len(&other.bv);
        if la != lb {
            return None;
        }
        Some(self.cmp(other))
    }
}

impl vstd::std_specs::cmp::PartialOrdSpecImpl for UnsignedInt {
    open spec fn obeys_partial_cmp_spec() -> bool {
        true
    }

    open spec fn partial_cmp_spec(&self, other: &UnsignedInt) -> Option<Ordering> {
        if self@.len() == other@.len() {
            Some(
                if self@ == other@ {
                    Ordering::Equal
                } else if uval(self@) < uval(other@) {
                    Ordering::Less
                } else {
                    Ordering::Greater
                },
            )
        } else {
            None
        }
    }
}

} // verus!
