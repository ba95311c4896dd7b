use deet::warmup::{add_n, add_n_inplace, dedup};

#[test]
fn test_add_n() {
    assert_eq!(add_n(vec![1], 2), vec![3]);
}

#[test]
fn test_add_n_inplace() {
    let mut v = vec![1];
    add_n_inplace(&mut v, 2);
    assert_eq!(v, vec![3]);
}

#[test]
fn test_dedup() {
    let mut v = vec![3, 1, 0, 1, 4, 4];
    dedup(&mut v);
    assert_eq!(v, vec![3, 1, 0, 4]);
}

#[test]
fn test_add_n_empty() {
    assert_eq!(add_n(vec![], 5), vec![]);
    let mut v: Vec<i32> = vec![];
    add_n_inplace(&mut v, 5);
    assert_eq!(v, vec![]);
}

#[test]
fn test_add_n_negative() {
    assert_eq!(add_n(vec![10, -3, 0], -7), vec![3, -10, -7]);
}

#[test]
fn test_dedup_empty_and_all_same() {
    let mut v: Vec<i32> = vec![];
    dedup(&mut v);
    assert_eq!(v, vec![]);

    let mut w = vec![2, 2, 2, 2];
    dedup(&mut w);
    assert_eq!(w, vec![2]);
}

#[test]
fn test_dedup_keeps_first_occurrence_order() {
    let mut v = vec![5, 4, 5, 3, 4, 5, 2];
    dedup(&mut v);
    assert_eq!(v, vec![5, 4, 3, 2]);
}
