use vstd::prelude::*;
use vstd::std_specs::cmp::PartialEqSpec;

use super::node::Node;

verus! {

/// An earlier revision of the doubly ended list.
///
/// It predates [`super::LinkedList`] and offers a smaller surface: both
/// ends can be read and extended, but only the back can be removed, and no
/// cell is handed out for in-place mutation except at the two ends.  Like
/// the newer revision it keeps its cells in a contiguous backbone, where a
/// cell's neighbours are the cells beside it.
#[derive(Debug)]
pub struct LinkedList<T> {
    nodes: Vec<Node<T>>,
}

impl<T> View for LinkedList<T> {
    type V = Seq<T>;

    closed spec fn view(&self) -> Seq<T> {
        super::node::data_of(self.nodes@)
    }
}

/* Private Methods */
impl<T> LinkedList<T> {
    /// The data of the cell at `index`, when the list is long enough to
    /// have one.
    fn get_node(&self, index: usize) -> (r: Option<&T>)
        ensures
            index < self@.len() ==> (r matches Some(v) && *v == self@[index as int]),
            index >= self@.len() ==> r is None,
    {
        if index < self.nodes.len() {
            Some(&self.nodes[index].data)
        } else {
            None
        }
    }
}

/* Public Methods */
impl<T> LinkedList<T> {
    /// Constructs a new empty list.
    pub fn new() -> (r: Self)
        ensures
            r@ == Seq::<T>::empty(),
    {
        LinkedList { nodes: Vec::new() }
    }

    /// Returns the number of cells in the list.
    pub fn len(&self) -> (r: usize)
        ensures
            r == self@.len(),
    {
        self.nodes.len()
    }

    /// Empties the list completely, resetting its length.
    pub fn clear(&mut self)
        ensures
            final(self)@ == Seq::<T>::empty(),
    {
        *self = Self::new();
    }

    /// Reports whether the list holds no cells.
    pub fn is_empty(&self) -> (r: bool)
        ensures
            r <==> self@.len() == 0,
    {
        self.nodes.is_empty()
    }

    /// Prepends a new cell holding `data` to the start of the list.
    pub fn push_front(&mut self, data: T)
        ensures
            final(self)@ == old(self)@.insert(0, data),
    {
        self.nodes.insert(0, Node::new(data));
        proof {
            assert(self@ =~= old(self)@.insert(0, data));
        }
    }

    /// Appends a new cell holding `data` to the end of the list.
    pub fn push_back(&mut self, data: T)
        ensures
            final(self)@ == old(self)@.push(data),
    {
        self.nodes.push(Node::new(data));
        proof {
            assert(self@ =~= old(self)@.push(data));
        }
    }

    /// Removes the last cell; an empty list stays empty.
    pub fn remove_back(&mut self)
        ensures
            old(self)@.len() > 0 ==> final(self)@ == old(self)@.drop_last(),
            old(self)@.len() == 0 ==> final(self)@ == old(self)@,
    {
        match self.nodes.pop() {
            Some(_) => {
                proof {
                    assert(self@ =~= old(self)@.drop_last());
                }
            },
            None => {},
        }
    }

    /// Appends the whole of `other` to the end of this list, leaving
    /// `other` empty.
    pub fn append_list(&mut self, other: &mut Self)
        ensures
            final(self)@ == old(self)@ + old(other)@,
            final(other)@ == Seq::<T>::empty(),
    {
        self.nodes.append(&mut other.nodes);
        proof {
            assert(self@ =~= old(self)@ + old(other)@);
            assert(other@ =~= Seq::<T>::empty());
        }
    }

    /// Returns a reference to the data at `index`, or nothing when `index`
    /// is out of range.
    pub fn get(&self, index: usize) -> (r: Option<&T>)
        ensures
            index < self@.len() ==> (r matches Some(v) && *v == self@[index as int]),
            index >= self@.len() ==> r is None,
    {
        self.get_node(index)
    }

    /// A reference to the data at the front of the list.
    pub fn front(&self) -> (r: Option<&T>)
        ensures
            self@.len() > 0 ==> (r matches Some(v) && *v == self@[0]),
            self@.len() == 0 ==> r is None,
    {
        if self.nodes.len() > 0 {
            Some(&self.nodes[0].data)
        } else {
            None
        }
    }

    /// A mutable reference to the data at the front of the list.
    pub fn front_mut(&mut self) -> (r: Option<&mut T>)
        ensures
            old(self)@.len() > 0 ==> (r matches Some(el) && *el == old(self)@[0] && final(self)@
                == old(self)@.update(0, *final(el))),
            old(self)@.len() == 0 ==> (r is None && final(self)@ == old(self)@),
    {
        if self.nodes.len() > 0 {
            let node = &mut self.nodes[0];
            let el = &mut node.data;
            proof {
                super::node::lemma_data_of_update(old(self).nodes@, 0, Node { data: *final(el) });
            }
            Some(el)
        } else {
            None
        }
    }

    /// A reference to the data at the back of the list.
    pub fn back(&self) -> (r: Option<&T>)
        ensures
            self@.len() > 0 ==> (r matches Some(v) && *v == self@.last()),
            self@.len() == 0 ==> r is None,
    {
        if self.nodes.len() > 0 {
            let index = self.nodes.len() - 1;
            Some(&self.nodes[index].data)
        } else {
            None
        }
    }

    /// A mutable reference to the data at the back of the list.
    pub fn back_mut(&mut self) -> (r: Option<&mut T>)
        ensures
            old(self)@.len() > 0 ==> (r matches Some(el) && *el == old(self)@.last()
                && final(self)@ == old(self)@.update(old(self)@.len() - 1, *final(el))),
            old(self)@.len() == 0 ==> (r is None && final(self)@ == old(self)@),
    {
        if self.nodes.len() > 0 {
            let index = self.nodes.len() - 1;
            let node = &mut self.nodes[index];
            let el = &mut node.data;
            proof {
                super::node::lemma_data_of_update(old(self).nodes@, old(self)@.len() - 1, Node { data: *final(el) });
            }
            Some(el)
        } else {
            None
        }
    }
}

impl LinkedList<i64> {
    /// Renders the list as text: the values in order, separated by a
    /// comma and a space, between square brackets.
    pub fn to_text(&self) -> (r: String)
        ensures
            r@ == crate::decimal::list_text(self@),
    {
        let n = self.nodes.len();
        let mut vals: Vec<i64> = Vec::with_capacity(n);
        for i in 0..n
            invariant
                n == self@.len(),
                vals@ =~= self@.subrange(0, i as int),
        {
            vals.push(self.nodes[i].data);
        }
        proof {
            assert(vals@ =~= self@);
        }
        crate::decimal::i64_list_to_text(&vals)
    }
}

impl<T: PartialEq> LinkedList<T> {
    /// Walks the list from the front: the index of the first cell whose
    /// data compares equal to `finding`, or nothing when no cell matches.
    pub fn search(&self, finding: T) -> (r: Option<usize>)
        ensures
            T::obeys_eq_spec() ==> match r {
                Some(i) => i < self@.len() && self@[i as int].eq_spec(&finding) && (forall|j: int|
                    0 <= j < i ==> !(#[trigger] self@[j]).eq_spec(&finding)),
                None => forall|j: int| 0 <= j < self@.len() ==> !(#[trigger] self@[j]).eq_spec(
                    &finding,
                ),
            },
    {
        let n = self.nodes.len();
        for i in 0..n
            invariant
                n == self@.len(),
                T::obeys_eq_spec() ==> forall|j: int|
                    0 <= j < i ==> !(#[trigger] self@[j]).eq_spec(&finding),
        {
            if self.nodes[i].data == finding {
                return Some(i);
            }
        }
        None
    }
}

impl<T> Default for LinkedList<T> {
    /// An empty list, exactly as [`LinkedList::new`] builds one.
    fn default() -> (r: Self)
        ensures
            r@ == Seq::<T>::empty(),
    {
        LinkedList::new()
    }
}

impl<T: PartialEq> PartialEq for LinkedList<T> {
    /// Two lists are equal when their lengths match and the data at
    /// corresponding indices compares equal.
    fn eq(&self, other: &Self) -> bool {
        if self.nodes.len() != other.nodes.len() {
            return false;
        }
        let n = self.nodes.len();
        for i in 0..n
            invariant
                n == self@.len(),
                self@.len() == other@.len(),
                T::obeys_eq_spec() ==> forall|j: int|
                    0 <= j < i ==> (#[trigger] self@[j]).eq_spec(&other@[j]),
        {
            if self.nodes[i].data != other.nodes[i].data {
                proof {
                    assert(T::obeys_eq_spec() ==> !(self@[i as int]).eq_spec(&other@[i as int]));
                }
                return false;
            }
        }
        true
    }

    /// Written out by hand in this revision: the exact negation of `eq`.
    fn ne(&self, other: &Self) -> bool {
        if self.nodes.len() != other.nodes.len() {
            return true;
        }
        let n = self.nodes.len();
        for i in 0..n
            invariant
                n == self@.len(),
                self@.len() == other@.len(),
                T::obeys_eq_spec() ==> forall|j: int|
                    0 <= j < i ==> (#[trigger] self@[j]).eq_spec(&other@[j]),
        {
            if self.nodes[i].data != other.nodes[i].data {
                proof {
                    assert(T::obeys_eq_spec() ==> !(self@[i as int]).eq_spec(&other@[i as int]));
                }
                return true;
            }
        }
        false
    }
}

impl<T: PartialEq> vstd::std_specs::cmp::PartialEqSpecImpl for LinkedList<T> {
    open spec fn obeys_eq_spec() -> bool {
        T::obeys_eq_spec()
    }

    open spec fn eq_spec(&self, other: &Self) -> bool {
        self@.len() == other@.len() && (forall|i: int|
            0 <= i < self@.len() ==> (#[trigger] self@[i]).eq_spec(&other@[i]))
    }
}

impl<T: Copy> From<Vec<T>> for LinkedList<T> {
    /// A list holding the elements of `vec` in order.
    fn from(vec: Vec<T>) -> Self {
        let mut list: LinkedList<T> = LinkedList::new();
        let n = vec.len();
        for i in 0..n
            invariant
                n == vec@.len(),
        {
            list.push_back(vec[i]);
        }
        list
    }
}

impl<T: Copy> From<&[T]> for LinkedList<T> {
    /// A list holding the elements of `slice` in order.
    fn from(slice: &[T]) -> Self {
        let mut list: LinkedList<T> = LinkedList::new();
        let n = slice.len();
        for i in 0..n
            invariant
                n == slice@.len(),
        {
            list.push_back(*vstd::slice::slice_index_get(slice, i));
        }
        list
    }
}

impl<T: Copy, const N: usize> From<[T; N]> for LinkedList<T> {
    /// A list holding the elements of `arr` in order.
    fn from(arr: [T; N]) -> Self {
        let mut list: LinkedList<T> = LinkedList::new();
        for i in 0..N {
            list.push_back(*vstd::array::array_index_get(&arr, i));
        }
        list
    }
}

impl<T: Copy> vstd::std_specs::convert::FromSpecImpl<Vec<T>> for LinkedList<T> {
    /// Two separately built lists cannot be told apart at the spec level of
    /// this representation, so nothing is promised of `from`; its behaviour
    /// is pinned down by [`LinkedList::push_back`] instead.
    open spec fn obeys_from_spec() -> bool {
        false
    }

    open spec fn from_spec(v: Vec<T>) -> Self {
        vstd::pervasive::arbitrary()
    }
}

impl<T: Copy> vstd::std_specs::convert::FromSpecImpl<&[T]> for LinkedList<T> {
    open spec fn obeys_from_spec() -> bool {
        false
    }

    open spec fn from_spec(v: &[T]) -> Self {
        vstd::pervasive::arbitrary()
    }
}

impl<T: Copy, const N: usize> vstd::std_specs::convert::FromSpecImpl<[T; N]> for LinkedList<T> {
    open spec fn obeys_from_spec() -> bool {
        false
    }

    open spec fn from_spec(v: [T; N]) -> Self {
        vstd::pervasive::arbitrary()
    }
}

} // verus!
