use pvz_remote::linklist::list1::{List, ListError};

#[test]
fn test1() {
    let mut list = List::new();
    list.add(1);
    list.add(2);
    println!("{}", list.get_len());
    println!("{:?}", list.to_vec());
    assert_eq!(list.get_len(), 2);
    assert_eq!(list.to_vec(), vec![1, 2]);
    list.remove_first().unwrap();
    println!("{:?}", list.to_vec());
    assert_eq!(list.to_vec(), vec![2]);
}

#[test]
fn new_list_is_empty() {
    let list = List::new();
    assert_eq!(list.get_len(), 0);
    assert_eq!(list.to_vec(), Vec::<i32>::new());
}

#[test]
fn remove_first_on_empty_fails_and_keeps_list() {
    let mut list = List::new();
    assert_eq!(list.remove_first(), Err(ListError::Empty));
    assert_eq!(list.get_len(), 0);
    assert_eq!(list.to_vec(), Vec::<i32>::new());
    assert_eq!(ListError::Empty.message(), "链表为空，删除头节点失败");
}

#[test]
fn remove_until_empty_then_fails() {
    let mut list = List::new();
    list.add(7);
    assert_eq!(list.remove_first(), Ok(()));
    assert_eq!(list.to_vec(), Vec::<i32>::new());
    assert_eq!(list.remove_first(), Err(ListError::Empty));
}

#[test]
fn first_in_first_out() {
    let mut list = List::new();
    list.add(10);
    list.add(-20);
    list.add(30);
    list.remove_first().unwrap();
    list.add(40);
    assert_eq!(list.to_vec(), vec![-20, 30, 40]);
    list.remove_first().unwrap();
    list.remove_first().unwrap();
    assert_eq!(list.to_vec(), vec![40]);
    assert_eq!(list.get_len(), 1);
}

#[test]
fn add_remove_commute_on_non_empty() {
    let mut a = List::new();
    a.add(1);
    a.add(2);
    a.add(3);
    a.remove_first().unwrap();
    let mut b = List::new();
    b.add(1);
    b.add(2);
    b.remove_first().unwrap();
    b.add(3);
    assert_eq!(a.to_vec(), b.to_vec());
}

#[test]
fn add_remove_on_empty_empties() {
    let mut list = List::new();
    list.add(i32::MIN);
    list.remove_first().unwrap();
    assert_eq!(list.get_len(), 0);
    assert_eq!(list.to_vec(), Vec::<i32>::new());
}

#[test]
fn holds_up_to_255_values_and_reuses_slots() {
    let mut list = List::new();
    for round in 0..3 {
        for i in 0..255 {
            list.add(i + round);
        }
        assert_eq!(list.get_len(), 255);
        let expected: Vec<i32> = (0..255).map(|i| i + round).collect();
        assert_eq!(list.to_vec(), expected);
        for _ in 0..255 {
            list.remove_first().unwrap();
        }
        assert_eq!(list.get_len(), 0);
    }
}

#[test]
fn len_counts_listed_values() {
    let mut list = List::new();
    for i in 0..17 {
        list.add(i * 3);
    }
    list.remove_first().unwrap();
    assert_eq!(list.get_len() as usize, list.to_vec().len());
}
