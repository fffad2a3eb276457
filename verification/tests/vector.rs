use data_structures::vector::vec::Vector;

fn vector_of<T: Copy>(xs: &[T]) -> Vector<T> {
    let mut vec: Vector<T> = Vector::new();
    for x in xs {
        vec.push(*x);
    }
    vec
}

#[test]
fn create_integer_vector() {
    let mut vec: Vector<i32> = Vector::new();
    vec.push(1);
    vec.push(2);
    vec.push(3);
    vec.push(4);
    vec.push(5);
    assert_eq!(vec.capacity(), 8);
    assert_eq!(vec.len(), 5);
}

#[test]
fn create_float_vector() {
    let mut vec: Vector<f32> = Vector::new();
    vec.push(1.0);
    vec.push(2.0);
    vec.push(3.0);
    vec.push(4.0);
    vec.push(5.0);
    assert_eq!(vec.capacity(), 8);
    assert_eq!(vec.len(), 5);
}

#[test]
fn create_str_vector() {
    let mut vec: Vector<&str> = Vector::new();
    vec.push("One");
    vec.push("Two");
    vec.push("Three");
    vec.push("Four");
    vec.push("Five");
    assert_eq!(vec.capacity(), 8);
    assert_eq!(vec.len(), 5);
}

#[test]
fn vec_get_integer() {
    let vec: Vector<i32> = vector_of(&[1, 2, 3, 4, 5]);
    assert_eq!(vec.get(2), Some(&3));
}

#[test]
fn vec_get_float() {
    let vec: Vector<f32> = vector_of(&[1.0, 2.0, 3.0, 4.0, 5.0]);
    assert_eq!(vec.get(2), Some(&3.0));
}

#[test]
fn vec_get_str() {
    let vec: Vector<&str> = vector_of(&["Hey", "You", "should", "get", "ME!"]);
    assert_eq!(vec.get(4), Some(&"ME!"));
}

#[test]
fn get_mut_integer() {
    let mut vec: Vector<i32> = vector_of(&[1, 2, 3, 4, 5]);
    assert_eq!(vec.get_mut(2), Some(&mut 3));
    *vec.get_mut(2).unwrap() = 72;
    assert_eq!(vec.get_mut(2), Some(&mut 72));
}

#[test]
fn get_mut_float() {
    let mut vec: Vector<f32> = vector_of(&[1.0, 2.0, 3.0, 4.0, 5.0]);
    assert_eq!(vec.get_mut(2), Some(&mut 3.0));
    *vec.get_mut(2).unwrap() = 72.0;
    assert_eq!(vec.get_mut(2), Some(&mut 72.0));
}

#[test]
fn get_mut_str() {
    let mut vec: Vector<&str> = vector_of(&["Hey", "You", "should", "get", "ME!"]);
    assert_eq!(vec.get_mut(4), Some(&mut "ME!"));
    *vec.get_mut(4).unwrap() = "ME! But mutable..";
    assert_eq!(vec.get_mut(4), Some(&mut "ME! But mutable.."));
}

#[test]
fn vec_search_for_integer() {
    let vec: Vector<i32> = vector_of(&[1337, 420, 3005, 666, 23]);
    assert_eq!(vec.search(666), Some(3));
}

#[test]
fn vec_search_for_float() {
    let vec: Vector<f32> = vector_of(&[3.14, 3.60, 5.55, 7.20, 45.0]);
    assert_eq!(vec.search(5.55), Some(2));
}

#[test]
fn vec_search_for_str() {
    let vec: Vector<&str> = vector_of(&["Hey", "You", "maybe", "find", "this."]);
    assert_eq!(vec.search("this."), Some(4));
}

#[test]
fn vec_partial_eq() {
    let vec_one: Vector<i32> = vector_of(&[5, 0, 5, 7, 8, 8]);
    let vec_two: Vector<i32> = vector_of(&[5, 0, 5, 7, 8, 8]);
    assert_eq!(vec_one, vec_two);
    assert_ne!(vec_one, vector_of(&[0, 3, 0, 0, 0, 0]));
}

#[test]
fn vec_index() {
    let vec: Vector<&str> = vector_of(&["Hey", "this", "is", "a", "Vector"]);
    assert_eq!(*vec.index(0), "Hey");
    assert_eq!(*vec.index(1), "this");
    assert_eq!(*vec.index(2), "is");
    assert_eq!(*vec.index(3), "a");
    assert_eq!(*vec.index(4), "Vector");
}

#[test]
fn vec_index_mut() {
    let mut vec: Vector<i32> = vector_of(&[3, 3, 3]);
    assert_eq!(vec, vector_of(&[3, 3, 3]));
    *vec.index_mut(0) = 6;
    *vec.index_mut(1) = 6;
    *vec.index_mut(2) = 6;
    assert_eq!(vec, vector_of(&[6, 6, 6]));
}

#[test]
fn push_reads_back() {
    let mut vec: Vector<i32> = Vector::new();
    let mut expected_len: usize = 0;
    for x in [9, -4, 0, 7, 7, 12] {
        vec.push(x);
        expected_len += 1;
        assert_eq!(vec.len(), expected_len);
        assert_eq!(vec.get(expected_len - 1), Some(&x));
    }
}

#[test]
fn capacity_progression() {
    let mut vec: Vector<u8> = Vector::new();
    assert_eq!(vec.capacity(), 0);
    let expectations: [(usize, usize); 12] = [
        (1, 4),
        (2, 4),
        (3, 4),
        (4, 4),
        (5, 8),
        (6, 8),
        (7, 8),
        (8, 8),
        (9, 16),
        (10, 16),
        (16, 16),
        (17, 32),
    ];
    let mut n: usize = 0;
    for (count, expected_capacity) in expectations {
        while n < count {
            vec.push(1);
            n += 1;
        }
        assert_eq!(vec.capacity(), expected_capacity);
        assert!(vec.len() <= vec.capacity());
    }
}

#[test]
fn get_out_of_range() {
    let empty: Vector<i32> = Vector::new();
    assert_eq!(empty.get(0), None);
    let mut vec: Vector<i32> = vector_of(&[1, 2, 3]);
    assert_eq!(vec.get(3), None);
    assert_eq!(vec.get(1000), None);
    assert_eq!(vec.get_mut(3), None);
}

#[test]
fn search_absent() {
    let vec: Vector<i32> = vector_of(&[1337, 420, 3005, 666, 23]);
    assert_eq!(vec.search(9999), None);
}

#[test]
fn eq_breaks_on_length() {
    let short: Vector<i32> = vector_of(&[1, 2, 3]);
    let long: Vector<i32> = vector_of(&[1, 2, 3, 4]);
    assert_ne!(short, long);
    let empty: Vector<i32> = Vector::new();
    let default: Vector<i32> = Vector::default();
    assert_eq!(empty, default);
}

struct CountsDrops {
    counter: std::rc::Rc<std::cell::Cell<usize>>,
}

impl Drop for CountsDrops {
    fn drop(&mut self) {
        self.counter.set(self.counter.get() + 1);
    }
}

#[test]
fn drop_finalizes_length_elements() {
    let counter = std::rc::Rc::new(std::cell::Cell::new(0));
    let mut vec: Vector<CountsDrops> = Vector::new();
    for _ in 0..5 {
        vec.push(CountsDrops { counter: counter.clone() });
    }
    assert_eq!(vec.len(), 5);
    assert_eq!(vec.capacity(), 8);
    drop(vec);
    assert_eq!(counter.get(), 5);
}
