use merkle_lab::list::LinkedList;

#[test]
fn new_list_is_empty() {
    let list = LinkedList::new();
    assert_eq!(list.to_vec(), Vec::<i32>::new());
}

#[test]
fn push_prepends_values() {
    let mut list = LinkedList::new();
    list.push(1);
    list.push(2);
    list.push(3);
    assert_eq!(list.to_vec(), vec![3, 2, 1]);
}
