//! The general laws of the library, each stated over the spec functions that
//! the public contracts use and proved once for every input.

use vstd::prelude::*;
use vstd::arithmetic::power2::*;
use vstd::arithmetic::div_mod::{lemma_fundamental_div_mod_converse, lemma_small_mod};
use vstd::arithmetic::mul::{lemma_mul_is_commutative, lemma_mul_is_distributive_add};

use crate::model::{
    lemma_sval_injective, lemma_uval_bound, lemma_uval_injective, lemma_uval_top,
    lemma_uval_window, lemma_uval_zero, neg_val, negated_sval, skey, sval, uval,
};

verus! {

/// Round trip of the signed kind: whenever the encoded value fits the 64-bit
/// extraction window, decoding the lowest 64 bits returns it exactly. With
/// the construction contract this says that building a signed value from a
/// native integer and extracting it again is the identity.
pub proof fn lemma_signed_round_trip(s: Seq<bool>)
    requires
        s.len() >= 64,
        -(pow2(63) as int) < sval(s),
        sval(s) < pow2(63),
    ensures
        sval(s.take(64)) == sval(s),
{
    let w = s.len();
    let win = s.take(64);
    lemma_uval_window(s, 64);
    lemma_uval_bound(s);
    lemma_uval_top(s);
    lemma_uval_top(win);
    lemma_pow2_unfold(64);
    lemma_pow2_pos(63);
    if s.last() {
        lemma_pow2_adds(64, (w - 64) as nat);
        lemma_pow2_pos((w - 64) as nat);
        let d = pow2(64) as int;
        let a = pow2((w - 64) as nat) as int;
        lemma_mul_is_distributive_add(d, a, -1);
        lemma_mul_is_commutative(a - 1, d);
        lemma_mul_is_commutative(a, d);
        assert((a - 1) * d + (sval(s) + d) == uval(s));
        lemma_fundamental_div_mod_converse(
            uval(s) as int,
            d,
            a - 1,
            sval(s) + d,
        );
    } else {
        lemma_small_mod(uval(s), pow2(64));
        lemma_pow2_strictly_increases(63, 64);
    }
}

/// Round trip of the unsigned kind: whenever the encoded magnitude fits the
/// 64-bit extraction window, reading the lowest 64 bits returns it exactly.
pub proof fn lemma_unsigned_round_trip(s: Seq<bool>)
    requires
        s.len() >= 64,
        uval(s) < pow2(64),
    ensures
        uval(s.take(64)) == uval(s),
{
    lemma_uval_window(s, 64);
    lemma_pow2_pos(64);
    lemma_small_mod(uval(s), pow2(64));
}

/// Double negation is the identity: negating a pattern twice by the
/// two's-complement rule restores it bit for bit, for every operand of every
/// width — the minimum included, since it negates to itself both times.
pub proof fn lemma_double_negation(a: Seq<bool>, b: Seq<bool>, c: Seq<bool>)
    requires
        a.len() == b.len(),
        b.len() == c.len(),
        uval(b) == neg_val(uval(a), a.len()),
        uval(c) == neg_val(uval(b), b.len()),
    ensures
        c =~= a,
{
    lemma_uval_bound(a);
    lemma_uval_injective(c, a);
}

/// Adding a value to its own two's-complement negation yields the all-zero
/// pattern of the width — for every operand whose negation carries the
/// opposite value, which excludes only the minimum of the width.
pub proof fn lemma_negation_cancels(s: Seq<bool>, r: Seq<bool>)
    requires
        s.len() == r.len(),
        s.len() >= 1,
        sval(s) != -(pow2((s.len() - 1) as nat) as int),
        sval(r) == sval(s) + negated_sval(s),
    ensures
        r =~= Seq::new(r.len(), |i: int| false),
{
    let z = Seq::new(r.len(), |i: int| false);
    lemma_uval_bound(r);
    lemma_uval_zero(z);
    lemma_uval_injective(r, z);
}

/// Signed addition is commutative: two same-width sums of the same operands
/// in either order pin the same bit pattern.
pub proof fn lemma_add_commutes_signed(a: Seq<bool>, b: Seq<bool>, r1: Seq<bool>, r2: Seq<bool>)
    requires
        a.len() == b.len(),
        r1.len() == a.len(),
        r2.len() == a.len(),
        a.len() >= 1,
        sval(r1) == sval(a) + sval(b),
        sval(r2) == sval(b) + sval(a),
    ensures
        r1 =~= r2,
{
    lemma_sval_injective(r1, r2);
}

/// Unsigned addition is commutative: two same-width sums of the same
/// operands in either order pin the same bit pattern.
pub proof fn lemma_add_commutes_unsigned(a: Seq<bool>, b: Seq<bool>, r1: Seq<bool>, r2: Seq<bool>)
    requires
        a.len() == b.len(),
        r1.len() == a.len(),
        r2.len() == a.len(),
        uval(r1) == uval(a) + uval(b),
        uval(r2) == uval(b) + uval(a),
    ensures
        r1 =~= r2,
{
    lemma_uval_injective(r1, r2);
}

/// The signed order is consistent with equality: comparison answers `Equal`
/// exactly on equal arrays, since equal keys force equal patterns.
pub proof fn lemma_signed_order_consistent(a: Seq<bool>, b: Seq<bool>)
    requires
        a.len() == b.len(),
        a.len() >= 1,
        skey(a) == skey(b),
    ensures
        a =~= b,
{
    lemma_uval_top(a);
    lemma_uval_top(b);
    lemma_uval_bound(a);
    lemma_uval_bound(b);
    lemma_pow2_unfold(a.len());
    lemma_pow2_pos((a.len() - 1) as nat);
    lemma_uval_injective(a, b);
}

/// The signed order is total: any two same-width keys are related one way.
pub proof fn lemma_signed_order_total(a: Seq<bool>, b: Seq<bool>)
    ensures
        skey(a) < skey(b) || skey(a) == skey(b) || skey(a) > skey(b),
{
}

/// The signed order is antisymmetric: a strictly smaller key is never also
/// strictly greater.
pub proof fn lemma_signed_order_antisymmetric(a: Seq<bool>, b: Seq<bool>)
    requires
        skey(a) < skey(b),
    ensures
        !(skey(b) < skey(a)),
{
}

/// The signed order is transitive.
pub proof fn lemma_signed_order_transitive(a: Seq<bool>, b: Seq<bool>, c: Seq<bool>)
    requires
        skey(a) < skey(b),
        skey(b) < skey(c),
    ensures
        skey(a) < skey(c),
{
}

/// The unsigned order is consistent with equality: comparison answers
/// `Equal` exactly on equal arrays, since equal magnitudes force equal
/// same-width patterns.
pub proof fn lemma_unsigned_order_consistent(a: Seq<bool>, b: Seq<bool>)
    requires
        a.len() == b.len(),
        uval(a) == uval(b),
    ensures
        a =~= b,
{
    lemma_uval_injective(a, b);
}

/// The unsigned order is total: any two magnitudes are related one way.
pub proof fn lemma_unsigned_order_total(a: Seq<bool>, b: Seq<bool>)
    ensures
        uval(a) < uval(b) || uval(a) == uval(b) || uval(a) > uval(b),
{
}

/// The unsigned order is antisymmetric: a strictly smaller magnitude is
/// never also strictly greater.
pub proof fn lemma_unsigned_order_antisymmetric(a: Seq<bool>, b: Seq<bool>)
    requires
        uval(a) < uval(b),
    ensures
        !(uval(b) < uval(a)),
{
}

/// The unsigned order is transitive.
pub proof fn lemma_unsigned_order_transitive(a: Seq<bool>, b: Seq<bool>, c: Seq<bool>)
    requires
        uval(a) < uval(b),
        uval(b) < uval(c),
    ensures
        uval(a) < uval(c),
{
}

} // verus!
