use timer_overhead::workload::{make_vec, sum_vec, workload_sum};

#[test]
fn workload_sum_of_empty_vector_is_zero() {
    assert_eq!(workload_sum(0), 0);
}

#[test]
fn workload_sum_of_single_element_is_zero() {
    assert_eq!(workload_sum(1), 0);
}

#[test]
fn workload_sum_matches_triangle_formula() {
    assert_eq!(workload_sum(10), 45);
    assert_eq!(workload_sum(2), 1);
    assert_eq!(workload_sum(100), 4950);
    for m in 0..50usize {
        assert_eq!(workload_sum(m), m * m.saturating_sub(1) / 2);
    }
}

#[test]
fn make_vec_counts_up_from_zero() {
    let v = make_vec(5);
    assert_eq!(v, vec![0, 1, 2, 3, 4]);
    assert!(make_vec(0).is_empty());
}

#[test]
fn sum_vec_adds_all_elements() {
    assert_eq!(sum_vec(&vec![5, 7, 9]), 21);
    assert_eq!(sum_vec(&Vec::<usize>::new()), 0);
}
