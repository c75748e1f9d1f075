use bitint::error::NumError;
use bitint::signed::SignedInt;
use bitint::unsigned::UnsignedInt;
use std::cmp::Ordering;

#[test]
fn signed_round_trip_samples() {
    let samples: [i64; 9] = [
        0,
        1,
        -1,
        2147483,
        -2147483,
        1 << 61,
        -(1 << 61),
        4611686018427387903,
        -4611686018427387903,
    ];
    for &v in samples.iter() {
        let wide = SignedInt::new(v, 256).unwrap();
        assert_eq!(wide.get_val(), v);
        let narrow = SignedInt::new(v, 64).unwrap();
        assert_eq!(narrow.get_val(), v);
    }
}

#[test]
fn unsigned_round_trip_samples() {
    let samples: [u64; 5] = [0, 1, 2147483, 1 << 62, (1 << 63) - 1];
    for &v in samples.iter() {
        let wide = UnsignedInt::new(v, 256).unwrap();
        assert_eq!(wide.get_val(), v);
        let narrow = UnsignedInt::new(v, 64).unwrap();
        assert_eq!(narrow.get_val(), v);
    }
}

#[test]
fn double_negation_identity() {
    let samples: [i64; 5] = [0, 1, -1, 2147483, -2147483];
    for &v in samples.iter() {
        let x = SignedInt::new(v, 256).unwrap();
        let back = x.twos_comp().twos_comp();
        assert_eq!(back, x);
    }
    let u = UnsignedInt::new(2147483, 256).unwrap();
    assert_eq!(u.twos_comp().twos_comp(), u);
}

#[test]
fn add_negation_is_zero() {
    let x = SignedInt::new(2147483, 256).unwrap();
    let n = x.twos_comp();
    let z = x.add(n).unwrap();
    assert_eq!(z.bits(), vec![false; 256]);
    assert_eq!(z, SignedInt::new(0, 256).unwrap());
}

#[test]
fn addition_commutes() {
    let a = SignedInt::new(123456, 256).unwrap();
    let b = SignedInt::new(-98765, 256).unwrap();
    let r1 = a.copy().add(b.copy()).unwrap();
    let r2 = b.add(a).unwrap();
    assert_eq!(r1, r2);

    let ua = UnsignedInt::new(123456, 256).unwrap();
    let ub = UnsignedInt::new(98765, 256).unwrap();
    let s1 = ua.copy().add(ub.copy()).unwrap();
    let s2 = ub.add(ua).unwrap();
    assert_eq!(s1, s2);
}

#[test]
fn ordering_is_strict_and_consistent() {
    let a = SignedInt::new(-5, 256).unwrap();
    let b = SignedInt::new(0, 256).unwrap();
    let c = SignedInt::new(7, 256).unwrap();
    assert_eq!(a.cmp(&a), Ordering::Equal);
    assert_eq!(a.cmp(&b), Ordering::Less);
    assert_eq!(b.cmp(&c), Ordering::Less);
    assert_eq!(a.cmp(&c), Ordering::Less);
    assert_eq!(c.cmp(&a), Ordering::Greater);
    assert!(a == a);
    assert!(!(a < a));
    assert!(!(a > a));
    assert!(SignedInt::new(1, 256).unwrap() != SignedInt::new(2, 256).unwrap());

    let u = UnsignedInt::new(5, 256).unwrap();
    let v = UnsignedInt::new(6, 256).unwrap();
    assert_eq!(u.cmp(&v), Ordering::Less);
    assert_eq!(v.cmp(&u), Ordering::Greater);
    assert_eq!(u.cmp(&u), Ordering::Equal);
}

#[test]
fn negative_pairs_order_by_negated_magnitude() {
    // among negative values the comparison negates both sides first, so the
    // pair is ordered by the magnitudes of the negations
    let m3 = SignedInt::new(-3, 256).unwrap();
    let m2 = SignedInt::new(-2, 256).unwrap();
    assert_eq!(m3.cmp(&m2), Ordering::Greater);
    assert_eq!(m2.cmp(&m3), Ordering::Less);
    // a negative value always stands below a non-negative one
    let p = SignedInt::new(1, 256).unwrap();
    assert_eq!(m3.cmp(&p), Ordering::Less);
    assert_eq!(p.cmp(&m3), Ordering::Greater);
}

#[test]
fn unsigned_sub_underflow_is_fatal() {
    let a = UnsignedInt::new(2147483, 256).unwrap();
    let b = UnsignedInt::new(4294966, 256).unwrap();
    let r = a.sub(b);
    assert!(matches!(r, Err(NumError::UnsignedUnderflow)));
}

#[test]
fn width_mismatch_is_fatal() {
    let a = SignedInt::new(1, 64).unwrap();
    let b = SignedInt::new(1, 128).unwrap();
    assert_eq!(a.partial_cmp(&b), None);
    assert!(matches!(a.add(b), Err(NumError::WidthMismatch)));
    let c = UnsignedInt::new(1, 64).unwrap();
    let d = UnsignedInt::new(1, 128).unwrap();
    assert!(matches!(c.sub(d), Err(NumError::WidthMismatch)));
}

#[test]
fn signed_overflow_is_fatal() {
    let a = SignedInt::new(i64::MAX, 64).unwrap();
    let b = SignedInt::new(1, 64).unwrap();
    assert!(matches!(a.add(b), Err(NumError::SignedOverflow)));
    let c = SignedInt::new(-i64::MAX, 64).unwrap();
    let d = SignedInt::new(-i64::MAX, 64).unwrap();
    assert!(matches!(c.add(d), Err(NumError::SignedOverflow)));
}

#[test]
fn unsigned_overflow_is_fatal() {
    let a = UnsignedInt::new(1 << 62, 64).unwrap();
    let b = UnsignedInt::new(1 << 62, 64).unwrap();
    assert!(matches!(a.add(b), Err(NumError::UnsignedOverflow)));
    // an operand whose top bit is set is refused before any arithmetic
    let neg = UnsignedInt::new(5, 64).unwrap().twos_comp();
    assert!(neg.is_neg());
    let one = UnsignedInt::new(1, 64).unwrap();
    assert!(matches!(neg.add(one), Err(NumError::UnsignedOverflow)));
    let neg2 = UnsignedInt::new(5, 64).unwrap().twos_comp();
    let one2 = UnsignedInt::new(1, 64).unwrap();
    assert!(matches!(neg2.sub(one2), Err(NumError::UnsignedOverflow)));
}

#[test]
fn bit_access_beyond_width_is_fatal() {
    let a = SignedInt::new(1, 256).unwrap();
    assert_eq!(a.bit(0), Ok(true));
    assert_eq!(a.bit(255), Ok(false));
    assert!(matches!(a.bit(256), Err(NumError::UninitializedBitAccess)));
    let u = UnsignedInt::new(1, 64).unwrap();
    assert_eq!(u.bit(0), Ok(true));
    assert!(matches!(u.bit(64), Err(NumError::UninitializedBitAccess)));
}

#[test]
fn degenerate_width_is_fatal() {
    assert!(matches!(SignedInt::new(1, 2), Err(NumError::DegenerateWidth)));
    assert!(matches!(SignedInt::new(0, 63), Err(NumError::DegenerateWidth)));
    assert!(matches!(UnsignedInt::new(1, 63), Err(NumError::DegenerateWidth)));
}

#[test]
fn copies_and_negation_behave() {
    let a = SignedInt::new(-42, 256).unwrap();
    let b = a.copy();
    assert_eq!(a, b);
    assert!(a.is_neg());
    let n = a.twos_comp();
    assert!(!n.is_neg());
    assert_eq!(n.get_val(), 42);
    // the unsigned zero negates to itself
    let z = UnsignedInt::new(0, 256).unwrap();
    assert_eq!(z.twos_comp().bits(), vec![false; 256]);
}
