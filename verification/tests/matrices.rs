use gk_math::matrix::{Mat, Mat2, Mat3};
use gk_math::vector::Vector;

#[test]
fn test_mat2() {
    let m1 = Mat2::new(vec![vec![1, 2], vec![2, 1]]);
    let m2 = Mat2::new(vec![vec![3, 4], vec![5, 6]]);

    assert!(m1.add(&m2) == m2.add(&m1));
}

#[test]
fn test_mat3() {
    let m1 = Mat3::new(vec![vec![1, 2, 3], vec![1, 2, 3], vec![1, 2, 3]]);
    let m2 = Mat3::new(vec![vec![2, 4, 6], vec![2, 4, 6], vec![2, 4, 6]]);

    assert_eq!(true, m1.is_square());
    assert!(m1.mul_scalar(2) == m2);
    let expected = Mat3::new(vec![vec![12, 24, 36], vec![12, 24, 36], vec![12, 24, 36]]);
    assert!(m1.matmul(&m2) == expected);
}

#[test]
fn test_mat3_mul_vec3() {
    let m = Mat3::identity();
    let v = Vector::new(vec![1, 2, 3]);

    assert!(m.mul_vector(&v) == v);
}

#[test]
fn shape_accessors() {
    let m = Mat::<2, 3>::zeros();
    assert_eq!(m.shape(), (2, 3));
    assert_eq!(m.rows(), 2);
    assert_eq!(m.cols(), 3);
    assert!(!m.is_square());
}

#[test]
fn cell_access_and_update() {
    let mut m = Mat::<2, 2>::zeros();
    assert_eq!(m.get(0, 1), Some(0));
    assert_eq!(m.get(2, 0), None);
    assert!(m.set(0, 1, 9).is_ok());
    assert_eq!(m.get(0, 1), Some(9));
    assert_eq!(m.set(2, 0, 1), Err("Index out of bounds"));
    assert_eq!(m.get(0, 1), Some(9));
}

#[test]
fn builders() {
    let z = Mat::<2, 2>::zeros();
    assert_eq!(z.get(0, 0), Some(0));
    let o = Mat::<2, 2>::ones();
    assert_eq!(o.get(1, 1), Some(1));
    let i = Mat::<3, 3>::identity();
    assert_eq!(i.get(0, 0), Some(1));
    assert_eq!(i.get(0, 1), Some(0));
    let d = Mat::<3, 3>::diag(&[4, 5, 6]);
    assert_eq!(d.get(1, 1), Some(5));
    assert_eq!(d.get(1, 2), Some(0));
    let dflt = Mat::<2, 2>::default();
    assert!(dflt == z);
}

#[test]
fn transpose_swaps_cells() {
    let m = Mat::<2, 3>::new(vec![vec![1, 2, 3], vec![4, 5, 6]]);
    let t = m.transpose();
    assert_eq!(t.shape(), (3, 2));
    assert_eq!(t.get(0, 1), Some(4));
    assert_eq!(t.get(2, 0), Some(3));
    assert!(t.transpose() == m);
}

#[test]
fn submatrix_copies_in_range_cells() {
    let m = Mat::<3, 3>::new(vec![vec![1, 2, 3], vec![4, 5, 6], vec![7, 8, 9]]);
    let s = m.submatrix::<1, 1, 2, 2>();
    assert_eq!(s.get(0, 0), Some(5));
    assert_eq!(s.get(1, 1), Some(9));
    let past_edge = m.submatrix::<2, 2, 2, 2>();
    assert_eq!(past_edge.get(0, 0), Some(9));
    assert_eq!(past_edge.get(1, 1), Some(0));
}

#[test]
fn flattenings() {
    let m = Mat::<2, 3>::new(vec![vec![1, 2, 3], vec![4, 5, 6]]);
    assert_eq!(m.flatten_row_major(), vec![1, 2, 3, 4, 5, 6]);
    assert_eq!(m.flatten_col_major(), vec![1, 4, 2, 5, 3, 6]);
    assert_eq!(m.iter(), vec![1, 2, 3, 4, 5, 6]);
    assert_eq!(m.rows_iter(), vec![vec![1, 2, 3], vec![4, 5, 6]]);
}

#[test]
fn reductions() {
    let m = Mat::<2, 2>::new(vec![vec![1, 2], vec![3, 4]]);
    assert_eq!(m.sum(), 10);
    assert_eq!(m.product(), 24);
}

#[test]
fn from_flat_slices() {
    let m = Mat::<2, 3>::from_vec(&[1, 2, 3, 4, 5, 6]).unwrap();
    assert_eq!(m.get(1, 0), Some(4));
    let c = Mat::<2, 3>::from_vec_col_major(&[1, 4, 2, 5, 3, 6]).unwrap();
    assert!(c == m);
    match Mat::<2, 3>::from_vec(&[1, 2, 3]) {
        Err(msg) => assert_eq!(msg, "Vector length does not match matrix dimensions"),
        Ok(_) => panic!("expected a length mismatch failure"),
    }
}

#[test]
fn elementwise_and_scalar_forms() {
    let m1 = Mat::<2, 2>::new(vec![vec![5, 6], vec![7, 8]]);
    let m2 = Mat::<2, 2>::new(vec![vec![1, 2], vec![3, 4]]);
    assert!(m1.sub(&m2) == Mat::<2, 2>::new(vec![vec![4, 4], vec![4, 4]]));
    assert!(m1.div_scalar(2) == Mat::<2, 2>::new(vec![vec![2, 3], vec![3, 4]]));
    let copy = m1.clone();
    assert!(copy == m1);
}

#[test]
fn rectangular_matrix_times_vector() {
    let m = Mat::<2, 3>::new(vec![vec![1, 0, 2], vec![0, 3, 0]]);
    let v = Vector::new(vec![4, 5, 6]);
    let r = m.mul_vector(&v);
    assert!(r == Vector::new(vec![16, 15]));
}

#[test]
fn debug_rendering() {
    let m = Mat2::new(vec![vec![1, 2], vec![3, -4]]);
    assert_eq!(m.to_debug_string(), "Matrix 2x2:\n[1, 2]\n[3, -4]\n");
}
