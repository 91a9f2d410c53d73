use cg::{ShapeError, MX, VC, VR};

#[test]
fn init() {
    let m = MX::<f64, 2, 2>::filled(0.0);
    assert!((0..4).all(|i| m.data[i] == 0.0));
    let m = MX::<f64, 2, 2>::from_flat(vec![0.0, 1.0, 2.0, 3.0]).unwrap();
    assert!((0..4).all(|i| m.data[i] == i as f64));
    let m = MX::<f64, 2, 2>::from_rows(vec![vec![0.0, 1.0], vec![2.0, 3.0]]).unwrap();
    assert!((0..4).all(|i| m.data[i] == i as f64));
    let m = VR::<f64, 4>::row(vec![0.0, 1.0, 2.0, 3.0]).unwrap();
    assert!((0..4).all(|i| m.data[i] == i as f64));
    let m = VC::<f64, 4>::column(vec![0.0, 1.0, 2.0, 3.0]).unwrap();
    assert!((0..4).all(|i| m.data[i] == i as f64));
}

#[test]
fn iter() {
    let m = MX::<i32, 2, 4>::from_rows(vec![vec![0, 1, 2, 3], vec![4, 5, 6, 7]]).unwrap();
    let ma = MX::<i32, 2, 4>::from_iter(m.clone().into_iter());
    let mb = MX::<i32, 4, 2>::from_iter(m.clone().into_iter());
    assert!((0..m.data.len()).all(|i| m.data[i] == ma.data[i] && m.data[i] == mb.data[i]));
    let mc = MX::<i32, 1, 1>::from_iter(ma.clone().into_iter());
    assert!((0..mc.data.len()).all(|i| mc.data[i] == m.data[i]));
    let md = MX::<i32, 2, 2>::from_iter(ma.clone().into_iter());
    assert!((0..md.data.len()).all(|i| md.data[i] == m.data[i]));
}

#[test]
fn index() {
    let mut m = MX::<usize, 2, 4>::from_rows(vec![vec![0, 1, 2, 3], vec![4, 5, 6, 7]]).unwrap();
    assert!((0..m.data.len()).all(|i| m.at(i) == i));
    (0..m.data.len()).for_each(|i| m.set(i, m.at(i) * 2));
    assert!((0..m.data.len()).all(|i| m.at(i) == i * 2));
}

#[test]
fn algebra() {
    let m = MX::<f64, 2, 4>::from_rows(vec![vec![0.0, 1.0, 2.0, 3.0], vec![4.0, 5.0, 6.0, 7.0]])
        .unwrap();
    let r = m.clone().reshape::<4, 2>();
    assert!((0..r.data.len()).all(|i| r.at(i) == m.at(i)));

    let m = MX::<f64, 2, 2>::from_rows(vec![vec![0.0, 1.0], vec![4.0, 5.0]]).unwrap();
    let r = m.transpose();
    assert_eq!(r.data, vec![0.0, 4.0, 1.0, 5.0]);

    let ma = MX::<i64, 2, 4>::from_rows(vec![vec![0, 1, 2, 3], vec![4, 5, 6, 7]]).unwrap();
    let mb =
        MX::<i64, 4, 2>::from_rows(vec![vec![0, 1], vec![2, 3], vec![4, 5], vec![6, 7]]).unwrap();
    let r = ma.multiply(&mb);
    assert!(r == MX::<i64, 2, 2>::from_rows(vec![vec![28, 34], vec![76, 98]]).unwrap());
    assert_eq!(ma.shape(), (2, 4));
    assert_eq!(mb.shape(), (4, 2));
    assert_eq!(r.shape(), (ma.shape().0, mb.shape().1));
}

#[test]
fn every_constructor_fills_each_cell() {
    assert_eq!(MX::<u8, 3, 5>::filled(7).data.len(), 15);
    assert_eq!(MX::<i64, 3, 5>::from_iter(vec![1, 2]).data.len(), 15);
    assert_eq!(MX::<i64, 3, 5>::from_flat(vec![0; 15]).unwrap().data.len(), 15);
    assert_eq!(MX::<i64, 3, 2>::from_rows(vec![vec![0; 2]; 3]).unwrap().data.len(), 6);
    assert_eq!(VR::<i64, 6>::row(vec![0; 6]).unwrap().data.len(), 6);
    assert_eq!(VC::<i64, 6>::column(vec![0; 6]).unwrap().data.len(), 6);
    assert_eq!(MX::<i64, 4, 4>::identity().data.len(), 16);
}

#[test]
fn from_iter_pads_with_default_and_truncates() {
    let short = MX::<u32, 2, 2>::from_iter(vec![9, 8]);
    assert_eq!(short.data, vec![9, 8, 0, 0]);
    let long = MX::<u32, 1, 2>::from_iter(vec![9, 8, 7, 6]);
    assert_eq!(long.data, vec![9, 8]);
    let empty = MX::<i64, 2, 1>::from_iter(Vec::new());
    assert_eq!(empty.data, vec![0, 0]);
}

#[test]
fn flat_list_of_wrong_length_is_refused() {
    let r = MX::<i64, 2, 3>::from_flat(vec![1, 2, 3, 4, 5]);
    assert_eq!(r.unwrap_err(), ShapeError::Length { expected: 6, found: 5 });
    let r = VR::<i64, 3>::row(vec![1, 2, 3, 4]);
    assert_eq!(r.unwrap_err(), ShapeError::Length { expected: 3, found: 4 });
    let r = VC::<i64, 3>::column(vec![]);
    assert_eq!(r.unwrap_err(), ShapeError::Length { expected: 3, found: 0 });
}

#[test]
fn nested_literal_of_wrong_shape_is_refused() {
    let r = MX::<i64, 2, 2>::from_rows(vec![vec![1, 2]]);
    assert_eq!(r.unwrap_err(), ShapeError::Rows { expected: 2, found: 1 });
    let r = MX::<i64, 3, 2>::from_rows(vec![vec![1, 2], vec![3], vec![4, 5, 6]]);
    assert_eq!(r.unwrap_err(), ShapeError::Columns { row: 1, expected: 2, found: 1 });
}

#[test]
fn cell_access_is_row_major() {
    let m = MX::<i64, 2, 3>::from_rows(vec![vec![10, 11, 12], vec![13, 14, 15]]).unwrap();
    for i in 0..2 {
        for j in 0..3 {
            assert_eq!(m.at_rc(i, j), m.at(i * 3 + j));
        }
    }
    assert_eq!(m.at_rc(1, 0), 13);
    let mut m = m;
    m.set_rc(1, 2, -1);
    assert_eq!(m.data, vec![10, 11, 12, 13, 14, -1]);
}

#[test]
fn linear_index_follows_row_major_flattening() {
    let m = MX::<i64, 2, 4>::from_rows(vec![vec![0, 1, 2, 3], vec![4, 5, 6, 7]]).unwrap();
    assert_eq!(m.at(5), 5);
}

#[test]
fn row_vector_transposed_is_column_vector() {
    let r = VR::<f64, 4>::row(vec![0.0, 1.0, 2.0, 3.0]).unwrap();
    let c = VC::<f64, 4>::column(vec![0.0, 1.0, 2.0, 3.0]).unwrap();
    let t = r.transpose();
    assert_eq!(t.shape(), (4, 1));
    assert!((0..4).all(|i| t.data[i] == c.data[i]));
}

#[test]
fn product_of_two_by_four_and_four_by_two() {
    let a = MX::<i64, 2, 4>::from_rows(vec![vec![0, 1, 2, 3], vec![4, 5, 6, 7]]).unwrap();
    let b = MX::<i64, 4, 2>::from_rows(vec![vec![0, 1], vec![2, 3], vec![4, 5], vec![6, 7]])
        .unwrap();
    assert_eq!(a.multiply(&b).data, vec![28, 34, 76, 98]);
}

#[test]
fn transposing_twice_gives_back_the_matrix() {
    let m = MX::<i64, 2, 3>::from_rows(vec![vec![1, 2, 3], vec![4, 5, 6]]).unwrap();
    let t = m.transpose();
    assert_eq!(t.data, vec![1, 4, 2, 5, 3, 6]);
    assert!(t.transpose() == m);
}

#[test]
fn reshape_and_back_gives_back_the_matrix() {
    let m = MX::<i64, 2, 3>::from_rows(vec![vec![1, 2, 3], vec![4, 5, 6]]).unwrap();
    let r = m.clone().reshape::<3, 2>();
    assert_eq!(r.at_rc(2, 0), 5);
    let back = r.reshape::<2, 3>();
    assert!(back == m);
}

#[test]
fn multiplying_by_identity_gives_back_the_matrix() {
    let m = MX::<i64, 2, 3>::from_rows(vec![vec![-1, 2, 30], vec![4, -50, 6]]).unwrap();
    let id = MX::<i64, 3, 3>::identity();
    assert_eq!(id.data, vec![1, 0, 0, 0, 1, 0, 0, 0, 1]);
    assert!(m.multiply(&id) == m);
}

#[test]
fn equality_compares_every_cell() {
    let a = MX::<i64, 1, 3>::from_flat(vec![1, 2, 3]).unwrap();
    let b = MX::<i64, 1, 3>::from_flat(vec![1, 2, 4]).unwrap();
    assert!(a == a.clone());
    assert!(a != b);
}

#[test]
fn flat_copy_keeps_the_matrix() {
    let m = MX::<i64, 2, 2>::from_flat(vec![4, 3, 2, 1]).unwrap();
    let v = m.to_vec();
    assert_eq!(v, vec![4, 3, 2, 1]);
    assert_eq!(m.at(0), 4);
}
