use rust_learn::self_vec::svec::SVec;

#[test]
fn self_vec() {
    let mut v = SVec::<i32>::new();
    v.push(1);
    v.push(2);
    v.push(3);
    do_eq(&v, vec![1, 2, 3]);

    v.pop();
    do_eq(&v, vec![1, 2]);

    v.push(3);
    v.insert(1, 4);
    do_eq(&v, vec![1, 4, 2, 3]);

    v.remove(1);
    do_eq(&v, vec![1, 2, 3]);

    assert_eq!(v.deref().last(), Some(&3));
    assert_eq!(v.deref().first(), Some(&1));
    assert_eq!(3, v.deref().len());
    assert_eq!(&v.deref()[..1], vec![1]);
    do_eq(&v, vec![1, 2, 3]);

    for item in v.deref_mut().iter_mut() {
        *item += 1;
    }
    do_eq(&v, vec![2, 3, 4]);
}

fn do_eq(v: &SVec<i32>, v_eq: Vec<i32>) {
    let mut v_helper = Vec::new();
    for item in v.deref().iter() {
        v_helper.push(*item);
    }
    assert_eq!(v_helper, v_eq);
}

#[test]
fn pop_after_push_gives_it_back() {
    let mut v = SVec::<i32>::new();
    assert_eq!(v.pop(), None);
    v.push(7);
    v.push(8);
    assert_eq!(v.pop(), Some(8));
    assert_eq!(v.deref(), &[7]);
}

#[test]
fn remove_after_insert_gives_it_back() {
    let mut v = SVec::<i32>::new();
    for x in [1, 2, 3] {
        v.push(x);
    }
    v.insert(3, 9);
    assert_eq!(v.deref(), &[1, 2, 3, 9]);
    assert_eq!(v.remove(3), 9);
    v.insert(0, 5);
    assert_eq!(v.remove(0), 5);
    assert_eq!(v.deref(), &[1, 2, 3]);
}
