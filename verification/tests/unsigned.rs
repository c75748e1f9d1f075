use bitint::unsigned::UnsignedInt;
use std::cmp::Ordering;

#[test]
fn uvec_one() {
    let test = UnsignedInt::new(1, 256).unwrap();
    let mut hardcoded = vec![false; 256];
    hardcoded[0] = true;
    assert_eq!(test.bits(), hardcoded);
}

#[test]
fn uvec_big_pos() {
    let test = UnsignedInt::new(2147483, 256).unwrap();
    let mut hardcoded = vec![false; 256];
    hardcoded[0] = true;
    hardcoded[1] = true;
    hardcoded[3] = true;
    hardcoded[4] = true;
    hardcoded[7] = true;
    hardcoded[10] = true;
    hardcoded[14] = true;
    hardcoded[15] = true;
    hardcoded[21] = true;
    assert_eq!(test.bits(), hardcoded);
}

#[test]
fn uvec_pos_add() {
    let a = UnsignedInt::new(2147483, 256).unwrap();
    let b = UnsignedInt::new(2147483, 256).unwrap();
    let c = a.add(b).unwrap();
    let d = UnsignedInt::new(4294966, 256).unwrap();
    assert_eq!(c.bits(), d.bits());
}

#[test]
fn uvec_pos_sub() {
    let a = UnsignedInt::new(4294966, 256).unwrap();
    let b = UnsignedInt::new(2147483, 256).unwrap();
    let c = a.sub(b).unwrap();
    let d = UnsignedInt::new(2147483, 256).unwrap();
    assert_eq!(c.is_neg(), false);
    assert_eq!(c.bits(), d.bits());
}

#[test]
fn uvec_eq() {
    let a = UnsignedInt::new(2147483, 256).unwrap();
    let b = UnsignedInt::new(2147483, 256).unwrap();
    assert_eq!(a, b);
    assert_eq!(a.bits(), b.bits());
}

#[test]
fn uvec_gv() {
    let a = UnsignedInt::new(2147483, 256).unwrap();
    let b = a.get_val();
    assert_eq!(2147483, b);
}

#[test]
fn uvec_cmp() {
    let a = UnsignedInt::new(2147483, 256).unwrap();
    let b = UnsignedInt::new(2147484, 256).unwrap();
    assert_eq!(a.cmp(&b), Ordering::Less);
    assert_eq!(b.cmp(&a), Ordering::Greater);
    assert_eq!(b > a, true);
    assert_eq!(a < b, true);
    assert_eq!(a > b, false);
    assert_eq!(b < a, false);
}
