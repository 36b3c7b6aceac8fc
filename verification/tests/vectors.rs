use gk_math::vector::Vector;

#[test]
fn test_vec2() {
    let v1 = Vector::new(vec![1, 2]);
    let v2 = Vector::new(vec![3, 4]);

    assert!(v1.add(&v2) == v2.add(&v1));
}

#[test]
fn test_vec3() {
    let v1 = Vector::new(vec![1, 2, 3]);
    let v2 = Vector::new(vec![2, 4, 6]);

    assert!(v1.mul_scalar(2) == v2);
    assert_eq!(v1.dot(&v2), 28);
    assert!(Vector::cross(&v1, &v2) == Vector::new(vec![0, 0, 0]));
    assert!(v1.mul_elem(&v2) == Vector::new(vec![2, 8, 18]));
    assert_eq!(v1.sum(), 6);
}

#[test]
fn constructor_and_indexing_follow_declaration_order() {
    let v = Vector::new(vec![7, -3, 12]);
    assert_eq!(v.len(), 3);
    assert_eq!(v.get(0), 7);
    assert_eq!(v.get(1), -3);
    assert_eq!(v.get(2), 12);
    let w = Vector::from_slice(&[7, -3, 12]);
    assert!(v == w);
    let mut u = Vector::new(vec![0, 0, 0]);
    u.set(1, 5);
    assert_eq!(u.get(1), 5);
}

#[test]
fn arithmetic_forms() {
    let v1 = Vector::new(vec![5, -2, 9]);
    let v2 = Vector::new(vec![1, 2, 3]);
    assert!(v1.sub(&v2) == Vector::new(vec![4, -4, 6]));
    assert!(v1.neg() == Vector::new(vec![-5, 2, -9]));
    assert!(v1.div_elem(&v2) == Vector::new(vec![5, -1, 3]));
    assert!(v1.div_scalar(2) == Vector::new(vec![2, -1, 4]));
    let mut a = Vector::new(vec![1, 1]);
    a.add_assign(&Vector::new(vec![2, 3]));
    assert!(a == Vector::new(vec![3, 4]));
    a.sub_assign(&Vector::new(vec![1, 1]));
    assert!(a == Vector::new(vec![2, 3]));
    a.mul_assign_scalar(3);
    assert!(a == Vector::new(vec![6, 9]));
    a.div_assign_scalar(2);
    assert!(a == Vector::new(vec![3, 4]));
}

#[test]
fn scalar_on_the_left_matches_scalar_on_the_right() {
    let v = Vector::new(vec![2, -7, 4]);
    assert!(Vector::scalar_mul(3, &v) == v.mul_scalar(3));
}

#[test]
fn scaling_equals_mapping_by_the_scalar() {
    let v = Vector::new(vec![1, 2, 3]);
    assert!(v.mul_scalar(4) == v.map(|e| e * 4));
}

#[test]
fn reductions_and_length() {
    let v = Vector::new(vec![1, 2, 3]);
    assert_eq!(v.length_squared(), 14);
    assert_eq!(v.length(), 3);
    let w = Vector::new(vec![10, 0]);
    assert_eq!(w.length(), 10);
    assert!(w.normalized() == Vector::new(vec![1, 0]));
}

#[test]
fn zero_test_and_extrema() {
    assert!(Vector::new(vec![0, 0, 0]).is_zero());
    assert!(!Vector::new(vec![0, 1, 0]).is_zero());
    let v = Vector::new(vec![4, -1, 7, -1]);
    assert_eq!(v.min_element(), -1);
    assert_eq!(v.max_element(), 7);
}

#[test]
fn cross_of_parallel_vectors_is_zero() {
    let v = Vector::new(vec![3, -5, 11]);
    assert!(Vector::cross(&v, &v).is_zero());
}

#[test]
fn partial_order_agrees_with_comparison_predicates() {
    let a = Vector::new(vec![1, 5]);
    let b = Vector::new(vec![2, 3]);
    assert_eq!(a.partial_cmp(&b), None);
    assert!(!a.lt(&b));
    assert!(!a.le(&b));
    assert!(!a.gt(&b));
    assert!(!a.ge(&b));

    let c = Vector::new(vec![1, 3]);
    let d = Vector::new(vec![2, 3]);
    assert_eq!(c.partial_cmp(&d), Some(std::cmp::Ordering::Less));
    assert!(!c.lt(&d));
    assert!(c.le(&d));
    assert_eq!(d.partial_cmp(&c), Some(std::cmp::Ordering::Greater));

    let e = Vector::new(vec![2, 3]);
    assert_eq!(d.partial_cmp(&e), Some(std::cmp::Ordering::Equal));
    assert!(d.le(&e));
    assert!(d.ge(&e));

    let f = Vector::new(vec![1, 2]);
    let g = Vector::new(vec![3, 4]);
    assert!(f.lt(&g));
    assert!(g.gt(&f));
}

#[test]
fn textual_renderings() {
    let v = Vector::new(vec![1, 2, 3]);
    assert_eq!(v.to_display_string(), "[ 1  2  3 ]");
    assert_eq!(v.to_debug_string("Vec3"), "Vec3 [ 1  2  3 ]");
    let w = Vector::new(vec![-17, 0]);
    assert_eq!(w.to_display_string(), "[ -17  0 ]");
}

#[test]
fn rendering_handles_the_extreme_values() {
    let v = Vector::new(vec![i64::MIN, i64::MAX]);
    assert_eq!(
        v.to_display_string(),
        "[ -9223372036854775808  9223372036854775807 ]"
    );
}
