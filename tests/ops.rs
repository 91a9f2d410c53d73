use cg::{BinOp, UnOp, MX};

fn m(v: Vec<i64>) -> MX<i64, 2, 2> {
    MX::<i64, 2, 2>::from_flat(v).unwrap()
}

#[test]
fn arithmetic_is_cell_by_cell() {
    let a = m(vec![7, -7, 9, 0]);
    let b = m(vec![2, 2, -4, 5]);
    assert_eq!(a.add(&b).data, vec![9, -5, 5, 5]);
    assert_eq!(a.sub(&b).data, vec![5, -9, 13, -5]);
    assert_eq!(a.mul(&b).data, vec![14, -14, -36, 0]);
}

#[test]
fn division_rounds_toward_zero() {
    let a = m(vec![7, -7, 7, -7]);
    let b = m(vec![2, 2, -2, -2]);
    assert_eq!(a.div(&b).data, vec![3, -3, -3, 3]);
    assert_eq!(a.rem(&b).data, vec![1, -1, 1, -1]);
    let lo = m(vec![i64::MIN, i64::MIN, i64::MAX, 0]);
    let d = m(vec![1, 2, -1, 3]);
    assert_eq!(lo.div(&d).data, vec![i64::MIN, i64::MIN / 2, -i64::MAX, 0]);
}

#[test]
fn bitwise_operators_are_cell_by_cell() {
    let a = m(vec![0b1100, 0b1010, -1, 5]);
    let b = m(vec![0b1010, 0b0110, 3, 1]);
    assert_eq!(a.bitand(&b).data, vec![0b1000, 0b0010, 3, 1]);
    assert_eq!(a.bitor(&b).data, vec![0b1110, 0b1110, -1, 5]);
    assert_eq!(a.bitxor(&b).data, vec![0b0110, 0b1100, -4, 4]);
    assert_eq!(a.shl(&b).data, vec![0b1100 << 10, 0b1010 << 6, -8, 10]);
    assert_eq!(a.shr(&b).data, vec![0, 0, -1, 2]);
}

#[test]
fn unary_operators_are_cell_by_cell() {
    let a = m(vec![3, -4, 0, i64::MAX]);
    assert_eq!(a.neg().data, vec![-3, 4, 0, -i64::MAX]);
    assert_eq!(a.not().data, vec![-4, 3, -1, i64::MIN]);
    assert_eq!(a.map_unary(UnOp::Neg).data, a.neg().data);
}

#[test]
fn scalar_is_broadcast_to_every_cell() {
    let a = m(vec![1, 2, 3, 4]);
    assert_eq!(a.zip_scalar(10, BinOp::Mul).data, vec![10, 20, 30, 40]);
    assert_eq!(a.zip_scalar(2, BinOp::Shl).data, vec![4, 8, 12, 16]);
    assert_eq!(a.zip_with(&a, BinOp::Sub).data, vec![0, 0, 0, 0]);
}

#[test]
fn in_place_operators_change_only_the_receiver() {
    let mut a = m(vec![1, 2, 3, 4]);
    let b = m(vec![10, 20, 30, 40]);
    a.zip_assign(&b, BinOp::Add);
    assert_eq!(a.data, vec![11, 22, 33, 44]);
    assert_eq!(b.data, vec![10, 20, 30, 40]);
    a.scalar_assign(11, BinOp::Div);
    assert_eq!(a.data, vec![1, 2, 3, 4]);
    a.scalar_assign(3, BinOp::Rem);
    assert_eq!(a.data, vec![1, 2, 0, 1]);
}
