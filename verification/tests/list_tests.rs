use deet::linked_list::{LinkedList, Node};

#[test]
fn new_list_is_empty() {
    let l = LinkedList::new();
    assert!(l.is_empty());
    assert_eq!(l.get_size(), 0);
}

#[test]
fn push_and_pop_are_front_operations() {
    let mut l = LinkedList::new();
    l.push_front(1);
    l.push_front(2);
    l.push_front(3);
    assert_eq!(l.get_size(), 3);
    assert!(!l.is_empty());
    assert_eq!(l.pop_front(), Some(3));
    assert_eq!(l.pop_front(), Some(2));
    assert_eq!(l.pop_front(), Some(1));
    assert_eq!(l.pop_front(), None);
    assert!(l.is_empty());
}

#[test]
fn to_vec_lists_front_first() {
    let mut l = LinkedList::new();
    l.push_front(10);
    l.push_front(20);
    l.push_front(30);
    assert_eq!(l.to_vec(), vec![30, 20, 10]);
}

#[test]
fn iter_yields_without_consuming() {
    let mut l = LinkedList::new();
    l.push_front(7);
    l.push_front(8);
    let mut it = l.iter();
    assert_eq!(it.next(), Some(8));
    assert_eq!(it.next(), Some(7));
    assert_eq!(it.next(), None);
    assert_eq!(l.get_size(), 2);
}

#[test]
fn to_string_spaces_each_value() {
    let mut l = LinkedList::new();
    l.push_front(0);
    l.push_front(10);
    l.push_front(321);
    assert_eq!(l.to_string(), " 321 10 0");
    assert_eq!(LinkedList::new().to_string(), "");
}

#[test]
fn node_holds_value_and_next() {
    let n = Node::new(42, None);
    assert_eq!(n.value, 42);
    assert!(n.next.is_none());
    let m = Node::new(41, Some(Box::new(n)));
    assert_eq!(m.next.as_ref().unwrap().value, 42);
}
