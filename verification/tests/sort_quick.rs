use rust_learn::self_sort::quick::sort;

#[test]
fn quick_sort() {
    let mut v = vec![3, 2, 1];
    sort(&mut v);
    assert_eq!(v, vec![1, 2, 3]);
}

#[test]
fn sort_keeps_ascending_input() {
    let mut v = vec![-4, 0, 0, 7, 9];
    sort(&mut v);
    assert_eq!(v, vec![-4, 0, 0, 7, 9]);
}

#[test]
fn sort_orders_two_elements() {
    let mut v = vec![9, -2];
    sort(&mut v);
    assert_eq!(v, vec![-2, 9]);
    let mut w = vec![5];
    sort(&mut w);
    assert_eq!(w, vec![5]);
}

#[test]
fn sort_front_element_comes_from_partitioning() {
    // the element that partitioning leaves in front stays there
    let mut v = vec![5, 1, 3];
    sort(&mut v);
    assert_eq!(v, vec![3, 1, 5]);
}

#[test]
fn sort_keeps_the_elements() {
    let mut v = vec![4, 8, -1, 4, 0, 12, 3];
    sort(&mut v);
    let mut a = v.clone();
    a.sort();
    assert_eq!(a, vec![-1, 0, 3, 4, 4, 8, 12]);
}

#[test]
fn sort_splits_around_first() {
    let mut a = [3, 1, 2, 4];
    rust_learn::self_sort::quick::sort(&mut a);
    assert_eq!(a, [2, 1, 3, 4]);
}
