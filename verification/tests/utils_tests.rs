use duke_engine::utils::{CloneVectors, Vectors};

#[test]
fn intercalate_on_empty_does_nothing() {
    let mut v: Vec<i32> = vec![];
    v.intercalate(1);
    assert!(v.is_empty());
}

#[test]
fn intercalate_on_vector_of_size_1_does_nothing() {
    let mut v = vec![1];
    v.intercalate(1);
    assert_eq!(vec![1], v);
}

#[test]
fn intercalate_on_vectors_of_size_2() {
    let mut v = vec![1, 2];
    v.intercalate(4);
    assert_eq!(vec![1, 4, 2], v);
}

#[test]
fn intercalate_on_vectors_of_size_5() {
    let mut v = vec![1, 2, 3, 4, 5];
    v.intercalate(10);
    assert_eq!(vec![1, 10, 2, 10, 3, 10, 4, 10, 5], v);
}

#[test]
fn intercalate_full_on_empty_wraps() {
    let mut v: Vec<i32> = vec![];
    v.intercalate_full(10, 42, 20);
    assert_eq!(vec![10, 20], v);
}

#[test]
fn intercalate_full_on_vector_of_size_1_wraps() {
    let mut v = vec![1];
    v.intercalate_full(10, 42, 20);
    assert_eq!(vec![10, 1, 20], v);
}

#[test]
fn intercalate_full_on_vectors_of_size_2() {
    let mut v = vec![1, 2];
    v.intercalate_full(10, 42, 20);
    assert_eq!(vec![10, 1, 42, 2, 20], v);
}

#[test]
fn intercalate_full_on_vectors_of_size_5() {
    let mut v = vec![1, 2, 3, 4, 5];
    v.intercalate_full(10, 42, 20);
    assert_eq!(vec![10, 1, 42, 2, 42, 3, 42, 4, 42, 5, 20], v);
}

#[test]
fn intercalate() {
    let expected = vec![1, 10, 2, 10, 3];
    let mut actual = vec![1, 2, 3];
    actual.intercalate(10);
    assert_eq!(expected, actual);
}

#[test]
fn intercalate_full() {
    let expected = vec![10, 1, 20, 2, 20, 3, 30];
    let mut actual = vec![1, 2, 3];
    actual.intercalate_full(10, 20, 30);
    assert_eq!(expected, actual);
}

#[test]
fn intercalate_every_n() {
    let expected = vec![10, 1, 2, 20, 3, 4, 20, 5, 6, 30];
    let mut actual = vec![1, 2, 3, 4, 5, 6];
    actual.intercalate_every_n(10, 20, 30, 2);
    assert_eq!(expected, actual);
}

#[test]
fn better_sort_by_key() {
    assert_eq!(
        vec!["my", "name", "moo", "isn't"].better_sort_by_key(|e| e.len() as i64),
        vec!["my", "moo", "name", "isn't"],
    )
}

#[test]
fn grouped_on_empty() {
    let x = Vec::<usize>::new();
    assert!(x.grouped(42).is_empty());
}

#[test]
fn grouped_on_exact_1() {
    assert_eq!(vec![1, 2, 3].grouped(3), vec![vec![1, 2, 3]]);
}

#[test]
fn grouped_on_exact_2() {
    assert_eq!(vec![1, 2, 3, 4, 5, 6].grouped(3), vec![vec![1, 2, 3], vec![4, 5, 6]]);
}

#[test]
fn grouped_with_extra_element() {
    assert_eq!(
        vec![1, 2, 3, 4, 5, 6, 7].grouped(2),
        vec![vec![1, 2], vec![3, 4], vec![5, 6], vec![7]],
    )
}
