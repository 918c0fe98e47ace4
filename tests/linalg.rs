use vole_zkp::field::modulus_bytes;
use vole_zkp::{DotProduct, Fr, FrMatrix, FrVec};

fn fr(x: u64) -> Fr {
    Fr::from(x)
}

fn frvec(xs: &[u64]) -> FrVec {
    FrVec(xs.iter().map(|x| fr(*x)).collect())
}

#[test]
fn test_transpose() {
    let x = FrMatrix(vec![
        FrVec(vec![Fr::from(1u64), Fr::from(2u64), Fr::from(3u64)]),
        FrVec(vec![Fr::from(4u64), Fr::from(5u64), Fr::from(6u64)]),
        FrVec(vec![Fr::from(7u64), Fr::from(8u64), Fr::from(9u64)]),
    ]);
    let x_t = FrMatrix(vec![
        FrVec(vec![Fr::from(1u64), Fr::from(4u64), Fr::from(7u64)]),
        FrVec(vec![Fr::from(2u64), Fr::from(5u64), Fr::from(8u64)]),
        FrVec(vec![Fr::from(3u64), Fr::from(6u64), Fr::from(9u64)]),
    ]);
    assert_eq!(x.transpose(), x_t);
}

#[test]
fn transpose_twice_gives_back_a_rectangular_matrix() {
    let x = FrMatrix(vec![frvec(&[1, 2, 3]), frvec(&[4, 5, 6])]);
    let t = x.transpose();
    assert_eq!(t, FrMatrix(vec![frvec(&[1, 4]), frvec(&[2, 5]), frvec(&[3, 6])]));
    assert_eq!(t.dim(), (3, 2));
    assert_eq!(x.dim(), (2, 3));
    assert_eq!(t.transpose(), x);
}

#[test]
fn field_arithmetic_wraps_at_the_modulus() {
    let mut pm1 = modulus_bytes();
    pm1[31] -= 1;
    let p_minus_one = Fr::from_repr(pm1).unwrap();
    assert!(p_minus_one.add(&fr(1)).is_zero());
    assert_eq!(fr(0).sub(&fr(1)), p_minus_one);
    assert_eq!(fr(1).neg(), p_minus_one);
    assert_eq!(p_minus_one.mul(&p_minus_one), fr(1));
    assert_eq!(fr(6).mul(&fr(7)), fr(42));
    assert_eq!(fr(40).add(&fr(2)), fr(42));
    assert_eq!(fr(50).sub(&fr(8)), fr(42));
    assert!(fr(1).is_one());
    assert!(!fr(2).is_one());
    assert!(Fr::from_repr(modulus_bytes()).is_none());
    assert_eq!(Fr::from_u128(1u128 << 100).mul(&fr(1)), Fr::from_u128(1u128 << 100));
    assert_eq!(fr(5).to_repr()[31], 5);
}

#[test]
fn vector_operations_work_entrywise() {
    let a = frvec(&[1, 2, 3]);
    let b = frvec(&[4, 5, 6]);
    assert_eq!(a.add(&b), frvec(&[5, 7, 9]));
    assert_eq!(b.sub(&a), frvec(&[3, 3, 3]));
    assert_eq!(a.mul(&b), frvec(&[4, 10, 18]));
    assert_eq!(a.scalar_mul(&fr(2)), frvec(&[2, 4, 6]));
    assert_eq!(a.dot(&b), fr(32));
    assert_eq!(a.neg().add(&a), frvec(&[0, 0, 0]));
    let mut c = b.clone();
    c.sub_assign(&a);
    assert_eq!(c, frvec(&[3, 3, 3]));
    assert_ne!(a, frvec(&[1, 2]));
}

#[test]
fn vector_times_matrix_dots_with_each_row() {
    let w = frvec(&[1, 2]);
    let m = FrMatrix(vec![frvec(&[3, 4]), frvec(&[5, 6]), frvec(&[0, 1])]);
    assert_eq!(w.mul_matrix(&m), frvec(&[11, 17, 2]));
}
