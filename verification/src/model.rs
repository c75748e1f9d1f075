//! The mathematical model of a bit array: the values it encodes and the
//! lemmas the arithmetic proofs rest on.
//!
//! A bit array is a `Seq<bool>` whose index 0 is the least-significant bit.
//! [`uval`] reads it as a plain magnitude, [`sval`] under the standard
//! two's-complement interpretation (the top flag contributes `-2^(len-1)`).

use vstd::prelude::*;
use vstd::arithmetic::power2::*;
use vstd::arithmetic::div_mod::*;
use vstd::arithmetic::mul::*;

verus! {

/// The magnitude a bit sequence encodes when every flag counts toward it:
/// the sum of `2^i` over the set indexes `i`.
pub open spec fn uval(s: Seq<bool>) -> nat
    decreases s.len(),
{
    if s.len() == 0 {
        0
    } else {
        uval(s.drop_last()) + if s.last() {
            pow2((s.len() - 1) as nat)
        } else {
            0
        }
    }
}

/// The value a bit sequence encodes under the two's-complement
/// interpretation: the top flag, when set, counts as `-2^(len-1)`.
pub open spec fn sval(s: Seq<bool>) -> int
    recommends
        s.len() >= 1,
{
    uval(s) - if s.len() >= 1 && s.last() {
        pow2(s.len()) as int
    } else {
        0
    }
}

/// The magnitude of the two's complement of a width-`w` magnitude `u`:
/// complementing every bit and adding one maps `u` to this value.
pub open spec fn neg_val(u: nat, w: nat) -> nat
    recommends
        u < pow2(w),
{
    if u == 0 {
        0
    } else {
        (pow2(w) - u) as nat
    }
}

/// Whether the integer `v` is representable as a signed value of width `w`.
pub open spec fn in_signed_range(v: int, w: nat) -> bool
    recommends
        w >= 1,
{
    -(pow2((w - 1) as nat) as int) <= v < pow2((w - 1) as nat)
}

/// The signed value of the two's-complement negation of `s`: the exact
/// negation for every operand but the minimum, which negates to itself.
pub open spec fn negated_sval(s: Seq<bool>) -> int
    recommends
        s.len() >= 1,
{
    if sval(s) == -(pow2((s.len() - 1) as nat) as int) {
        sval(s)
    } else {
        -sval(s)
    }
}

/// The key by which signed comparison orders bit patterns of one width.
///
/// Non-negative patterns are ordered by magnitude and stand above all
/// negative ones. Negative patterns are ordered among themselves by the
/// magnitude of their two's-complement negation, ascending — the order the
/// negate-then-compare rule of signed comparison produces — and the minimum,
/// which negates to itself, stands below every other pattern.
pub open spec fn skey(s: Seq<bool>) -> int
    recommends
        s.len() >= 1,
{
    if s.len() >= 1 && s.last() {
        if uval(s) == pow2((s.len() - 1) as nat) {
            -(pow2(s.len()) as int)
        } else {
            -(uval(s) as int)
        }
    } else {
        uval(s) as int
    }
}

/// The magnitude of any bit sequence stays below `2^len`.
pub proof fn lemma_uval_bound(s: Seq<bool>)
    ensures
        uval(s) < pow2(s.len()),
    decreases s.len(),
{
    if s.len() == 0 {
        lemma2_to64();
    } else {
        lemma_uval_bound(s.drop_last());
        lemma_pow2_unfold(s.len());
    }
}

/// A set top flag is exactly a magnitude of at least `2^(len-1)`.
pub proof fn lemma_uval_top(s: Seq<bool>)
    requires
        s.len() >= 1,
    ensures
        s.last() <==> uval(s) >= pow2((s.len() - 1) as nat),
{
    lemma_uval_bound(s.drop_last());
}

/// Every two's-complement value of width `len` lies in the signed range.
pub proof fn lemma_sval_in_range(s: Seq<bool>)
    requires
        s.len() >= 1,
    ensures
        in_signed_range(sval(s), s.len()),
{
    lemma_uval_bound(s);
    lemma_uval_top(s);
    lemma_pow2_unfold(s.len());
    lemma_pow2_pos((s.len() - 1) as nat);
}

/// Extending a prefix by one bit adds that bit's weight to the magnitude.
pub proof fn lemma_uval_take_succ(s: Seq<bool>, i: int)
    requires
        0 <= i < s.len(),
    ensures
        uval(s.take(i + 1)) == uval(s.take(i)) + if s[i] {
            pow2(i as nat)
        } else {
            0nat
        },
{
    assert(s.take(i + 1).drop_last() =~= s.take(i));
    assert(s.take(i + 1).last() == s[i]);
}

/// A sequence of clear flags encodes magnitude zero.
pub proof fn lemma_uval_zero(s: Seq<bool>)
    requires
        forall|i: int| 0 <= i < s.len() ==> !s[i],
    ensures
        uval(s) == 0,
    decreases s.len(),
{
    if s.len() > 0 {
        assert(forall|i: int| 0 <= i < s.drop_last().len() ==> !s.drop_last()[i]);
        lemma_uval_zero(s.drop_last());
    }
}

/// Writing one flag moves the magnitude by exactly that flag's weight.
pub proof fn lemma_uval_update(s: Seq<bool>, i: int, b: bool)
    requires
        0 <= i < s.len(),
    ensures
        uval(s.update(i, b)) + (if s[i] {
            pow2(i as nat)
        } else {
            0nat
        }) == uval(s) + (if b {
            pow2(i as nat)
        } else {
            0nat
        }),
    decreases s.len(),
{
    let t = s.update(i, b);
    if i == s.len() - 1 {
        assert(t.drop_last() =~= s.drop_last());
    } else {
        assert(t.drop_last() =~= s.drop_last().update(i, b));
        assert(t.last() == s.last());
        lemma_uval_update(s.drop_last(), i, b);
    }
}

/// The magnitude splits at any cut `m` into the low part plus `2^m` times
/// the high part.
pub proof fn lemma_uval_split(s: Seq<bool>, m: int)
    requires
        0 <= m <= s.len(),
    ensures
        uval(s) == uval(s.take(m)) + pow2(m as nat) * uval(s.skip(m)),
    decreases s.len(),
{
    if m == s.len() {
        assert(s.take(m) =~= s);
        assert(s.skip(m) =~= Seq::<bool>::empty());
    } else {
        let hi = s.skip(m);
        let dl = s.drop_last();
        lemma_uval_split(dl, m);
        assert(dl.take(m) =~= s.take(m));
        assert(dl.skip(m) =~= hi.drop_last());
        assert(hi.last() == s.last());
        assert(hi.len() == s.len() - m);
        let p = pow2(m as nat) as int;
        let top = if hi.last() {
            pow2((hi.len() - 1) as nat) as int
        } else {
            0
        };
        assert(uval(hi) == uval(hi.drop_last()) + top);
        lemma_mul_is_distributive_add(p, uval(hi.drop_last()) as int, top);
        assert(p * uval(hi) == p * uval(hi.drop_last()) + p * top);
        if s.last() {
            lemma_pow2_adds(m as nat, (s.len() - m - 1) as nat);
            assert(p * top == pow2((s.len() - 1) as nat));
        }
        assert(uval(dl) == uval(s.take(m)) + p * uval(hi.drop_last()));
    }
}

/// Two same-width sequences with the same magnitude hold the same flags.
pub proof fn lemma_uval_injective(a: Seq<bool>, b: Seq<bool>)
    requires
        a.len() == b.len(),
        uval(a) == uval(b),
    ensures
        a =~= b,
    decreases a.len(),
{
    if a.len() > 0 {
        lemma_uval_bound(a.drop_last());
        lemma_uval_bound(b.drop_last());
        assert(a.last() == b.last());
        lemma_uval_injective(a.drop_last(), b.drop_last());
        assert forall|i: int| 0 <= i < a.len() implies a[i] == b[i] by {
            if i < a.len() - 1 {
                assert(a.drop_last()[i] == b.drop_last()[i]);
            }
        }
    }
}

/// Complementing every flag maps a magnitude `u` to `2^len - 1 - u`.
pub proof fn lemma_uval_complement(s: Seq<bool>)
    ensures
        uval(Seq::new(s.len(), |i: int| !s[i])) + uval(s) + 1 == pow2(s.len()),
    decreases s.len(),
{
    let c = Seq::new(s.len(), |i: int| !s[i]);
    if s.len() == 0 {
        lemma2_to64();
    } else {
        let d = s.drop_last();
        assert(c.drop_last() =~= Seq::new(d.len(), |i: int| !d[i]));
        assert(c.last() == !s.last());
        lemma_uval_complement(d);
        lemma_pow2_unfold(s.len());
    }
}

/// When two same-width sequences agree above position `j` and differ at it,
/// the one holding the set flag encodes the strictly greater magnitude: the
/// top-down scan decides correctly at the first differing position.
pub proof fn lemma_uval_scan(a: Seq<bool>, b: Seq<bool>, j: int)
    requires
        a.len() == b.len(),
        0 <= j < a.len(),
        a[j],
        !b[j],
        forall|k: int| j < k < a.len() ==> a[k] == b[k],
    ensures
        uval(a) > uval(b),
{
    lemma_uval_split(a, j + 1);
    lemma_uval_split(b, j + 1);
    assert(a.skip(j + 1) =~= b.skip(j + 1));
    lemma_uval_take_succ(a, j);
    lemma_uval_take_succ(b, j);
    lemma_uval_bound(a.take(j));
    lemma_uval_bound(b.take(j));
}

/// The low `m` bits encode the magnitude reduced modulo `2^m`.
pub proof fn lemma_uval_window(s: Seq<bool>, m: int)
    requires
        0 <= m <= s.len(),
    ensures
        uval(s.take(m)) == uval(s) as int % (pow2(m as nat) as int),
{
    lemma_uval_split(s, m);
    lemma_uval_bound(s.take(m));
    lemma_pow2_pos(m as nat);
    lemma_fundamental_div_mod_converse(
        uval(s) as int,
        pow2(m as nat) as int,
        uval(s.skip(m)) as int,
        uval(s.take(m)) as int,
    );
}

/// Two same-width sequences with the same signed value hold the same flags.
pub proof fn lemma_sval_injective(a: Seq<bool>, b: Seq<bool>)
    requires
        a.len() == b.len(),
        a.len() >= 1,
        sval(a) == sval(b),
    ensures
        a =~= b,
{
    lemma_uval_top(a);
    lemma_uval_top(b);
    lemma_uval_bound(a);
    lemma_uval_bound(b);
    lemma_pow2_unfold(a.len());
    lemma_uval_injective(a, b);
}

/// A pattern holding the two's-complement negation of `s` encodes, as a
/// signed value, exactly `negated_sval(s)`.
pub proof fn lemma_neg_val_sval(s: Seq<bool>, t: Seq<bool>)
    requires
        s.len() == t.len(),
        s.len() >= 1,
        uval(t) == neg_val(uval(s), s.len()),
    ensures
        sval(t) == negated_sval(s),
{
    lemma_uval_bound(s);
    lemma_uval_top(s);
    lemma_uval_top(t);
    lemma_pow2_unfold(s.len());
    lemma_pow2_pos((s.len() - 1) as nat);
}

} // verus!
