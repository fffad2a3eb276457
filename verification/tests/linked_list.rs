use data_structures::linked_list::LinkedList;

#[test]
fn push_front() {
    let mut list: LinkedList<i32> = LinkedList::new();
    list.push_front(1);
    list.push_front(2);
    list.push_front(3);
    list.push_front(4);
    list.push_front(5);
    assert_eq!(list, LinkedList::from([5, 4, 3, 2, 1]));
    assert_eq!(list.len(), 5);
}

#[test]
fn push_back() {
    let mut list: LinkedList<i32> = LinkedList::new();
    list.push_back(1);
    list.push_back(2);
    list.push_back(3);
    list.push_back(4);
    list.push_back(5);
    assert_eq!(list, LinkedList::from([1, 2, 3, 4, 5]));
    assert_eq!(list.len(), 5);
}

#[test]
fn tests_append_list() {
    let mut list_one: LinkedList<&str> = LinkedList::from(["One", "Two", "Three"]);
    let mut list_two: LinkedList<&str> = LinkedList::from(["Four", "Five", "Six"]);
    list_one.append_list(&mut list_two);
    assert_eq!(list_one, LinkedList::from(["One", "Two", "Three", "Four", "Five", "Six"]));
    assert_eq!(list_one.len(), 6);
}

#[test]
fn remove() {
    let mut list: LinkedList<&str> = LinkedList::from(["One", "Two", "Three"]);
    list.remove_back();
    assert_eq!(list, LinkedList::from(["One", "Two"]));
    list.remove_front();
    assert_eq!(list, LinkedList::from(["Two"]));
}

#[test]
fn pop() {
    let mut list: LinkedList<i32> = LinkedList::from([1, 2, 3, 4, 5]);

    let pop_front = list.pop_front();
    assert_eq!(pop_front, Some(1));

    let pop_back = list.pop_back();
    assert_eq!(pop_back, Some(5));

    assert_eq!(list, LinkedList::from([2, 3, 4]));
}

#[test]
fn tests_clear() {
    let mut list: LinkedList<i32> = LinkedList::from([6, 6, 6]);
    list.clear();
    assert_eq!(list, LinkedList::<i32>::new());
}

#[test]
fn tests_is_empty() {
    let mut list: LinkedList<&str> = LinkedList::from(["I", "am", "not", "empty."]);
    assert_eq!(list.is_empty(), false);
    list.clear();
    assert_eq!(list.is_empty(), true);
}

#[test]
fn get() {
    let list: LinkedList<i32> = LinkedList::from([1, 2, 3, 4, 5]);
    assert_eq!(list.get(2), Some(&3));
}

#[test]
fn get_mut() {
    let mut list: LinkedList<f32> = LinkedList::from([1.0, 2.0, 3.0, 4.0, 5.0]);
    assert_eq!(list.get_mut(2), Some(&mut 3.0));
    *list.get_mut(2).unwrap() = 6.0;
    assert_eq!(list.get_mut(2), Some(&mut 6.0));
}

#[test]
fn search() {
    let list: LinkedList<&str> = LinkedList::from(["Search", "Idk", "Maybe", "This?"]);
    assert_eq!(list.search("This?"), Some(3));
}

#[test]
fn eq() {
    let list1 = LinkedList::from([3, 2, 1]);
    let list2 = LinkedList::from([3, 2, 1]);
    assert_eq!(list1, list2);
}

#[test]
fn ne() {
    let list1 = LinkedList::from([4, 0, 4]);
    let list2 = LinkedList::from([4, 0, 0]);
    assert_ne!(list1, list2);

    let list1 = LinkedList::from([4, 0, 4, 0]);
    assert_ne!(list1, list2);
}

#[test]
fn tests_index() {
    let list: LinkedList<&str> = LinkedList::from(["Hey", "this", "is", "a", "Linked", "List"]);
    assert_eq!(*list.index(0), "Hey");
    assert_eq!(*list.index(1), "this");
    assert_eq!(*list.index(2), "is");
    assert_eq!(*list.index(3), "a");
    assert_eq!(*list.index(4), "Linked");
    assert_eq!(*list.index(5), "List");
}

#[test]
fn tests_index_mut() {
    let mut list: LinkedList<i32> = LinkedList::from([3, 3, 3]);
    assert_eq!(list, LinkedList::from([3, 3, 3]));
    *list.index_mut(0) = 6;
    *list.index_mut(1) = 6;
    *list.index_mut(2) = 6;
    assert_eq!(list, LinkedList::from([6, 6, 6]));
}

#[test]
fn tests_default() {
    let list: LinkedList<u8> = LinkedList::default();
    assert_eq!(list, LinkedList::new());
}

#[test]
fn tests_length() {
    assert_eq!(LinkedList::from([1, 2, 3]).len(), 3);
}

#[test]
fn tests_display() {
    assert_eq!(LinkedList::from([1i64, 3, 3, 7]).to_text(), "[1, 3, 3, 7]");
    assert_eq!(LinkedList::<i64>::new().to_text(), "[]");
}

#[test]
fn tests_from_vec() {
    let list = LinkedList::from(vec![1, 2, 3]);
    assert_eq!(list, LinkedList::from([1, 2, 3]));
}

#[test]
fn tests_from_slice() {
    let slice: &[i32] = &[1, 2, 3];
    let list = LinkedList::from(slice);
    assert_eq!(list, LinkedList::from([1, 2, 3]));
}

#[test]
fn tests_from_array() {
    let arr: [i32; 3] = [1, 2, 3];
    let list = LinkedList::from(arr);
    assert_eq!(list, LinkedList::from([1, 2, 3]));
}

#[test]
fn from_str() {
    let x = "5 4 3 2 1";
    assert_eq!(x.parse::<LinkedList<i64>>().unwrap(), LinkedList::from([5i64, 4, 3, 2, 1]));
}

#[test]
fn as_vector() {
    let list = LinkedList::from([1, 3, 3, 7]);
    assert_eq!(list.as_vector(), vec![1, 3, 3, 7]);
}

#[test]
fn tests_insert() {
    let mut list = LinkedList::from([1, 1]);
    list.insert(2, 1);
    assert_eq!(list, LinkedList::from([1, 2, 1]));
    assert_eq!(list.len(), 3);
    assert_eq!(*list.index(1), 2);
}

#[test]
fn iterator() {
    let mut sum: i32 = 0;

    for i in LinkedList::from([1, 3, 3, 7, 3, 0, 0, 5]).as_vector() {
        sum += i;
    }

    assert_eq!(sum, 22);
}
