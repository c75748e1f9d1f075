use bitint::signed::SignedInt;
use std::cmp::Ordering;

#[test]
fn ivec_one() {
    let test = SignedInt::new(1, 256).unwrap();
    let mut hardcoded = vec![false; 256];
    hardcoded[0] = true;
    assert_eq!(test.bits(), hardcoded);
}

#[test]
fn neg_one() {
    let test = SignedInt::new(-1, 256).unwrap();
    let hardcoded = vec![true; 256];
    assert_eq!(test.bits(), hardcoded);
}

#[test]
fn ivec_big_pos() {
    let test = SignedInt::new(2147483, 256).unwrap();
    let mut hardcoded = vec![false; 256];
    hardcoded[0] = true;
    hardcoded[1] = true;
    hardcoded[3] = true;
    hardcoded[4] = true;
    hardcoded[7] = true;
    hardcoded[10] = true;
    hardcoded[14] = true;
    hardcoded[15] = true;
    hardcoded[21] = true;
    assert_eq!(test.bits(), hardcoded);
}

#[test]
fn big_neg() {
    let test = SignedInt::new(-2147483, 256).unwrap();
    let mut hardcoded = vec![true; 256];
    hardcoded[1] = false;
    hardcoded[3] = false;
    hardcoded[4] = false;
    hardcoded[7] = false;
    hardcoded[10] = false;
    hardcoded[14] = false;
    hardcoded[15] = false;
    hardcoded[21] = false;
    assert_eq!(test.bits(), hardcoded);
}

#[test]
fn zero_sum() {
    let a = SignedInt::new(-2147483, 256).unwrap();
    let b = SignedInt::new(2147483, 256).unwrap();
    let c = a.add(b).unwrap();
    let d = SignedInt::new(0, 256).unwrap();
    assert_eq!(c.bits(), d.bits());
}

#[test]
fn negative_add() {
    let a = SignedInt::new(-2147483, 256).unwrap();
    let b = SignedInt::new(-2147483, 256).unwrap();
    let c = a.add(b).unwrap();
    let d = SignedInt::new(-4294966, 256).unwrap();
    assert_eq!(c.bits(), d.bits());
}

#[test]
fn ivec_pos_add() {
    let a = SignedInt::new(2147483, 256).unwrap();
    let b = SignedInt::new(2147483, 256).unwrap();
    let c = a.add(b).unwrap();
    let d = SignedInt::new(4294966, 256).unwrap();
    assert_eq!(c.bits(), d.bits());
}

#[test]
fn negative_sub() {
    let a = SignedInt::new(-2147483, 256).unwrap();
    let b = SignedInt::new(-2147483, 256).unwrap();
    let c = a.sub(b).unwrap();
    let d = SignedInt::new(0, 256).unwrap();
    assert_eq!(c.bits(), d.bits());
}

#[test]
fn ivec_pos_sub() {
    let a = SignedInt::new(4294966, 256).unwrap();
    let b = SignedInt::new(2147483, 256).unwrap();
    let c = a.sub(b).unwrap();
    let d = SignedInt::new(2147483, 256).unwrap();
    assert_eq!(c.bits(), d.bits());
}

#[test]
fn ivec_eq() {
    let a = SignedInt::new(2147483, 256).unwrap();
    let b = SignedInt::new(2147483, 256).unwrap();
    assert_eq!(a, b);
    assert_eq!(a.bits(), b.bits());
}

#[test]
fn ivec_gv() {
    let a = SignedInt::new(2147483, 256).unwrap();
    let b = a.get_val();
    assert_eq!(2147483, b);
}

#[test]
fn ivec_cmp() {
    let a = SignedInt::new(2147483, 256).unwrap();
    let b = SignedInt::new(2147484, 256).unwrap();
    assert_eq!(a.cmp(&b), Ordering::Less);
    assert_eq!(b.cmp(&a), Ordering::Greater);
    assert_eq!(b > a, true);
    assert_eq!(a < b, true);
    assert_eq!(a > b, false);
    assert_eq!(b < a, false);
}
