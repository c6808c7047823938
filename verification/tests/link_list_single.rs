use rust_learn::link_list::single::{LinkedList, Node};

#[test]
fn test_single() {
    let mut head = LinkedList{
        head: Some(Box::new(Node{elem:1, next: None})),
    };
    head.head.unwrap().as_mut().next = Some(Box::new(
        Node{
            elem:2,
            next: Some(Box::new(Node{elem:1, next: None}))
        }
    ));

    // let iter = head.iter_mut();
}

#[test]
fn iter_yields_elements_in_order() {
    let mut list = LinkedList {
        head: Some(Box::new(Node {
            elem: 1,
            next: Some(Box::new(Node { elem: 2, next: Some(Box::new(Node { elem: 3, next: None })) })),
        })),
    };
    let mut it = list.iter_mut();
    assert_eq!(it.next(), Some(&1));
    assert_eq!(it.next(), Some(&2));
    assert_eq!(it.next(), Some(&3));
    assert_eq!(it.next(), None);
    assert_eq!(it.next(), None);
    let mut empty: LinkedList<i32> = LinkedList { head: None };
    assert_eq!(empty.iter_mut().next(), None);
}
