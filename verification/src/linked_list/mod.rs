//! A doubly ended list of element cells, in its current revision.
//!
//! An earlier revision of the same structure is kept under [`list`]; the
//! element cell shared by both lives in [`node`].

use vstd::prelude::*;
use vstd::std_specs::cmp::PartialEqSpec;

pub mod list;
pub mod node;

use node::Node;

verus! {

/// A linked list of element cells with access to both ends.
///
/// The cells are kept in a contiguous backbone in list order, so the
/// neighbour of a cell is the cell beside it and no per-cell link fields
/// are needed.  All operations are bounds-checked; out-of-range lookups
/// report an absent result.
#[derive(Debug)]
pub struct LinkedList<T> {
    nodes: Vec<Node<T>>,
}

impl<T> View for LinkedList<T> {
    type V = Seq<T>;

    closed spec fn view(&self) -> Seq<T> {
        node::data_of(self.nodes@)
    }
}

/* Private Methods */
impl<T> LinkedList<T> {
    /// The cell at `index`, when the list is long enough to have one.
    fn get_node(&self, index: usize) -> (r: Option<&Node<T>>)
        ensures
            index < self@.len() ==> (r matches Some(node) && node.data == self@[index as int]),
            index >= self@.len() ==> r is None,
    {
        if index < self.nodes.len() {
            Some(&self.nodes[index])
        } else {
            None
        }
    }
}

/* Public Methods */
impl<T> LinkedList<T> {
    /// Constructs a new empty list.
    pub fn new() -> (r: Self)
        ensures
            r@ == Seq::<T>::empty(),
    {
        LinkedList { nodes: Vec::new() }
    }

    /// Returns the number of cells in the list.
    pub fn len(&self) -> (r: usize)
        ensures
            r == self@.len(),
    {
        self.nodes.len()
    }

    /// Reports whether the list holds no cells.
    pub fn is_empty(&self) -> (r: bool)
        ensures
            r <==> self@.len() == 0,
    {
        self.nodes.is_empty()
    }

    /// Empties the list completely, resetting its length.
    pub fn clear(&mut self)
        ensures
            final(self)@ == Seq::<T>::empty(),
    {
        *self = Self::new();
    }

    /// Prepends a new cell holding `data` to the start of the list.
    pub fn push_front(&mut self, data: T)
        ensures
            final(self)@ == old(self)@.insert(0, data),
    {
        self.nodes.insert(0, Node::new(data));
        proof {
            assert(self@ =~= old(self)@.insert(0, data));
        }
    }

    /// Appends a new cell holding `data` to the end of the list.
    pub fn push_back(&mut self, data: T)
        ensures
            final(self)@ == old(self)@.push(data),
    {
        self.nodes.push(Node::new(data));
        proof {
            assert(self@ =~= old(self)@.push(data));
        }
    }

    /// Inserts a new cell holding `data` in front of the cell currently at
    /// `index`.  When no cell sits at `index` the list stays as it is.
    pub fn insert(&mut self, data: T, index: usize)
        ensures
            index < old(self)@.len() ==> final(self)@ == old(self)@.insert(index as int, data),
            index >= old(self)@.len() ==> final(self)@ == old(self)@,
    {
        if index < self.nodes.len() {
            self.nodes.insert(index, Node::new(data));
            proof {
                assert(self@ =~= old(self)@.insert(index as int, data));
            }
        }
    }

    /// Removes the first cell and hands its data out, or nothing when the
    /// list is empty.
    pub fn pop_front(&mut self) -> (r: Option<T>)
        ensures
            old(self)@.len() > 0 ==> (r matches Some(v) && v == old(self)@[0] && final(self)@
                == old(self)@.subrange(1, old(self)@.len() as int)),
            old(self)@.len() == 0 ==> (r is None && final(self)@ == old(self)@),
    {
        if self.nodes.len() > 0 {
            let node = self.nodes.remove(0);
            proof {
                assert(self@ =~= old(self)@.subrange(1, old(self)@.len() as int));
            }
            Some(node.data)
        } else {
            None
        }
    }

    /// Removes the last cell and hands its data out, or nothing when the
    /// list is empty.
    pub fn pop_back(&mut self) -> (r: Option<T>)
        ensures
            old(self)@.len() > 0 ==> (r matches Some(v) && v == old(self)@.last() && final(self)@
                == old(self)@.drop_last()),
            old(self)@.len() == 0 ==> (r is None && final(self)@ == old(self)@),
    {
        match self.nodes.pop() {
            Some(node) => {
                proof {
                    assert(self@ =~= old(self)@.drop_last());
                }
                Some(node.data)
            },
            None => None,
        }
    }

    /// Removes the first cell; an empty list stays empty.
    pub fn remove_front(&mut self)
        ensures
            old(self)@.len() > 0 ==> final(self)@ == old(self)@.subrange(
                1,
                old(self)@.len() as int,
            ),
            old(self)@.len() == 0 ==> final(self)@ == old(self)@,
    {
        if self.nodes.len() > 0 {
            let _ = self.nodes.remove(0);
            proof {
                assert(self@ =~= old(self)@.subrange(1, old(self)@.len() as int));
            }
        }
    }

    /// Removes the last cell; an empty list stays empty.
    pub fn remove_back(&mut self)
        ensures
            old(self)@.len() > 0 ==> final(self)@ == old(self)@.drop_last(),
            old(self)@.len() == 0 ==> final(self)@ == old(self)@,
    {
        match self.nodes.pop() {
            Some(_) => {
                proof {
                    assert(self@ =~= old(self)@.drop_last());
                }
            },
            None => {},
        }
    }

    /// Appends the whole of `other` to the end of this list, leaving
    /// `other` empty.
    pub fn append_list(&mut self, other: &mut Self)
        ensures
            final(self)@ == old(self)@ + old(other)@,
            final(other)@ == Seq::<T>::empty(),
    {
        self.nodes.append(&mut other.nodes);
        proof {
            assert(self@ =~= old(self)@ + old(other)@);
            assert(other@ =~= Seq::<T>::empty());
        }
    }

    /// Returns a reference to the data at `index`, or nothing when `index`
    /// is out of range.
    pub fn get(&self, index: usize) -> (r: Option<&T>)
        ensures
            index < self@.len() ==> (r matches Some(v) && *v == self@[index as int]),
            index >= self@.len() ==> r is None,
    {
        match self.get_node(index) {
            Some(node) => Some(&node.data),
            None => None,
        }
    }

    /// Like [`Self::get`], but hands out a reference through which the data
    /// can be changed in place.
    pub fn get_mut(&mut self, index: usize) -> (r: Option<&mut T>)
        ensures
            index < old(self)@.len() ==> (r matches Some(el) && *el == old(self)@[index as int]
                && final(self)@ == old(self)@.update(index as int, *final(el))),
            index >= old(self)@.len() ==> (r is None && final(self)@ == old(self)@),
    {
        if index < self.nodes.len() {
            let node = &mut self.nodes[index];
            let el = &mut node.data;
            proof {
                node::lemma_data_of_update(old(self).nodes@, index as int, Node { data: *final(el) });
            }
            Some(el)
        } else {
            None
        }
    }

    /// A reference to the data at the front of the list.
    pub fn front(&self) -> (r: Option<&T>)
        ensures
            self@.len() > 0 ==> (r matches Some(v) && *v == self@[0]),
            self@.len() == 0 ==> r is None,
    {
        if self.nodes.len() > 0 {
            Some(&self.nodes[0].data)
        } else {
            None
        }
    }

    /// A mutable reference to the data at the front of the list.
    pub fn front_mut(&mut self) -> (r: Option<&mut T>)
        ensures
            old(self)@.len() > 0 ==> (r matches Some(el) && *el == old(self)@[0] && final(self)@
                == old(self)@.update(0, *final(el))),
            old(self)@.len() == 0 ==> (r is None && final(self)@ == old(self)@),
    {
        if self.nodes.len() > 0 {
            let node = &mut self.nodes[0];
            let el = &mut node.data;
            proof {
                node::lemma_data_of_update(old(self).nodes@, 0, Node { data: *final(el) });
            }
            Some(el)
        } else {
            None
        }
    }

    /// A reference to the data at the back of the list.
    pub fn back(&self) -> (r: Option<&T>)
        ensures
            self@.len() > 0 ==> (r matches Some(v) && *v == self@.last()),
            self@.len() == 0 ==> r is None,
    {
        if self.nodes.len() > 0 {
            let index = self.nodes.len() - 1;
            Some(&self.nodes[index].data)
        } else {
            None
        }
    }

    /// A mutable reference to the data at the back of the list.
    pub fn back_mut(&mut self) -> (r: Option<&mut T>)
        ensures
            old(self)@.len() > 0 ==> (r matches Some(el) && *el == old(self)@.last()
                && final(self)@ == old(self)@.update(old(self)@.len() - 1, *final(el))),
            old(self)@.len() == 0 ==> (r is None && final(self)@ == old(self)@),
    {
        if self.nodes.len() > 0 {
            let index = self.nodes.len() - 1;
            let node = &mut self.nodes[index];
            let el = &mut node.data;
            proof {
                node::lemma_data_of_update(old(self).nodes@, old(self)@.len() - 1, Node { data: *final(el) });
            }
            Some(el)
        } else {
            None
        }
    }

    /// Indexed access: the data at `index`.  An out-of-range index is a
    /// contract violation, so callers must stay in bounds.
    pub fn index(&self, index: usize) -> (r: &T)
        requires
            index < self@.len(),
        ensures
            *r == self@[index as int],
    {
        &self.nodes[index].data
    }

    /// Indexed mutation, with the same bounds contract as [`Self::index`].
    pub fn index_mut(&mut self, index: usize) -> (r: &mut T)
        requires
            index < old(self)@.len(),
        ensures
            *r == old(self)@[index as int],
            final(self)@ == old(self)@.update(index as int, *final(r)),
    {
        let node = &mut self.nodes[index];
        let el = &mut node.data;
        proof {
            node::lemma_data_of_update(old(self).nodes@, index as int, Node { data: *final(el) });
        }
        el
    }
}

impl<T: Copy> LinkedList<T> {
    /// Copies the list contents into a plain `Vec`, front to back.
    pub fn as_vector(&self) -> (r: Vec<T>)
        ensures
            r@ == self@,
    {
        let n = self.nodes.len();
        let mut vector: Vec<T> = Vec::with_capacity(n);
        for i in 0..n
            invariant
                n == self@.len(),
                vector@ =~= self@.subrange(0, i as int),
        {
            vector.push(self.nodes[i].data);
        }
        proof {
            assert(vector@ =~= self@);
        }
        vector
    }
}

impl LinkedList<i64> {
    /// Renders the list as text: the values in order, separated by a
    /// comma and a space, between square brackets.
    pub fn to_text(&self) -> (r: String)
        ensures
            r@ == crate::decimal::list_text(self@),
    {
        let vals = self.as_vector();
        crate::decimal::i64_list_to_text(&vals)
    }

    /// Rebuilds a list from a space-separated run of integers, accepting
    /// exactly what [`crate::decimal::list_value`] accepts.
    pub fn from_text(s: &str) -> (r: Result<Self, crate::decimal::ParseError>)
        ensures
            r matches Ok(l) ==> crate::decimal::list_value(s@) == Some(l@),
            r is Err ==> crate::decimal::list_value(s@) is None,
    {
        match crate::decimal::parse_i64_list(s) {
            Ok(vals) => {
                let mut list = LinkedList::new();
                let n = vals.len();
                for i in 0..n
                    invariant
                        n == vals@.len(),
                        list@ =~= vals@.subrange(0, i as int),
                {
                    list.push_back(vals[i]);
                }
                proof {
                    assert(list@ =~= vals@);
                }
                Ok(list)
            },
            Err(e) => Err(e),
        }
    }
}

impl core::str::FromStr for LinkedList<i64> {
    type Err = crate::decimal::ParseError;

    /// Parses a space-separated run of integers, e.g. `"5 4 3 2 1"`.
    /// Note that this format is not the one [`LinkedList::to_text`]
    /// renders.
    fn from_str(s: &str) -> Result<LinkedList<i64>, crate::decimal::ParseError> {
        LinkedList::from_text(s)
    }
}

impl<T: PartialEq> LinkedList<T> {
    /// Walks the list from the front: the index of the first cell whose
    /// data compares equal to `finding`, or nothing when no cell matches.
    pub fn search(&self, finding: T) -> (r: Option<usize>)
        ensures
            T::obeys_eq_spec() ==> match r {
                Some(i) => i < self@.len() && self@[i as int].eq_spec(&finding) && (forall|j: int|
                    0 <= j < i ==> !(#[trigger] self@[j]).eq_spec(&finding)),
                None => forall|j: int| 0 <= j < self@.len() ==> !(#[trigger] self@[j]).eq_spec(
                    &finding,
                ),
            },
    {
        let n = self.nodes.len();
        for i in 0..n
            invariant
                n == self@.len(),
                T::obeys_eq_spec() ==> forall|j: int|
                    0 <= j < i ==> !(#[trigger] self@[j]).eq_spec(&finding),
        {
            if self.nodes[i].data == finding {
                return Some(i);
            }
        }
        None
    }
}

impl<T> Default for LinkedList<T> {
    /// An empty list, exactly as [`LinkedList::new`] builds one.
    fn default() -> (r: Self)
        ensures
            r@ == Seq::<T>::empty(),
    {
        LinkedList::new()
    }
}

impl<T: PartialEq> PartialEq for LinkedList<T> {
    /// Two lists are equal when their lengths match and the data at
    /// corresponding indices compares equal.
    fn eq(&self, other: &Self) -> bool {
        if self.nodes.len() != other.nodes.len() {
            return false;
        }
        let n = self.nodes.len();
        for i in 0..n
            invariant
                n == self@.len(),
                self@.len() == other@.len(),
                T::obeys_eq_spec() ==> forall|j: int|
                    0 <= j < i ==> (#[trigger] self@[j]).eq_spec(&other@[j]),
        {
            if self.nodes[i].data != other.nodes[i].data {
                proof {
                    assert(T::obeys_eq_spec() ==> !(self@[i as int]).eq_spec(&other@[i as int]));
                }
                return false;
            }
        }
        true
    }
}

impl<T: PartialEq> vstd::std_specs::cmp::PartialEqSpecImpl for LinkedList<T> {
    open spec fn obeys_eq_spec() -> bool {
        T::obeys_eq_spec()
    }

    open spec fn eq_spec(&self, other: &Self) -> bool {
        self@.len() == other@.len() && (forall|i: int|
            0 <= i < self@.len() ==> (#[trigger] self@[i]).eq_spec(&other@[i]))
    }
}

impl<T: Copy> From<Vec<T>> for LinkedList<T> {
    /// A list holding the elements of `vec` in order.
    fn from(vec: Vec<T>) -> Self {
        let mut list: LinkedList<T> = LinkedList::new();
        let n = vec.len();
        for i in 0..n
            invariant
                n == vec@.len(),
        {
            list.push_back(vec[i]);
        }
        list
    }
}

impl<T: Copy> From<&[T]> for LinkedList<T> {
    /// A list holding the elements of `slice` in order.
    fn from(slice: &[T]) -> Self {
        let mut list: LinkedList<T> = LinkedList::new();
        let n = slice.len();
        for i in 0..n
            invariant
                n == slice@.len(),
        {
            list.push_back(*vstd::slice::slice_index_get(slice, i));
        }
        list
    }
}

impl<T: Copy, const N: usize> From<[T; N]> for LinkedList<T> {
    /// A list holding the elements of `arr` in order.
    fn from(arr: [T; N]) -> Self {
        let mut list: LinkedList<T> = LinkedList::new();
        for i in 0..N {
            list.push_back(*vstd::array::array_index_get(&arr, i));
        }
        list
    }
}

impl<T: Copy> vstd::std_specs::convert::FromSpecImpl<Vec<T>> for LinkedList<T> {
    /// Two separately built lists cannot be told apart at the spec level of
    /// this representation, so nothing is promised of `from`; its behaviour
    /// is pinned down by [`LinkedList::push_back`] instead.
    open spec fn obeys_from_spec() -> bool {
        false
    }

    open spec fn from_spec(v: Vec<T>) -> Self {
        vstd::pervasive::arbitrary()
    }
}

impl<T: Copy> vstd::std_specs::convert::FromSpecImpl<&[T]> for LinkedList<T> {
    open spec fn obeys_from_spec() -> bool {
        false
    }

    open spec fn from_spec(v: &[T]) -> Self {
        vstd::pervasive::arbitrary()
    }
}

impl<T: Copy, const N: usize> vstd::std_specs::convert::FromSpecImpl<[T; N]> for LinkedList<T> {
    open spec fn obeys_from_spec() -> bool {
        false
    }

    open spec fn from_spec(v: [T; N]) -> Self {
        vstd::pervasive::arbitrary()
    }
}

} // verus!
