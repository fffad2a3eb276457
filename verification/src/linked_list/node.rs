use vstd::prelude::*;
use vstd::std_specs::cmp::PartialEqSpec;

verus! {

/// One element cell of a linked list.
///
/// The lists of this crate keep their cells in a contiguous backbone, so a
/// cell records no explicit neighbour links: adjacency is positional.
#[derive(Debug)]
pub struct Node<T> {
    pub data: T,
}

/// The data carried by a backbone of cells, in backbone order.  Both list
/// revisions use this as their view.
pub open spec fn data_of<T>(nodes: Seq<Node<T>>) -> Seq<T> {
    nodes.map_values(|node: Node<T>| node.data)
}

/// Replacing one cell of a backbone replaces exactly the corresponding
/// element of the data it carries.
pub proof fn lemma_data_of_update<T>(nodes: Seq<Node<T>>, i: int, node: Node<T>)
    requires
        0 <= i < nodes.len(),
    ensures
        data_of(nodes.update(i, node)) == data_of(nodes).update(i, node.data),
{
    assert(data_of(nodes.update(i, node)) =~= data_of(nodes).update(i, node.data));
}

impl<T> Node<T> {
    /// A fresh cell holding `data`, not yet part of any list.
    pub fn new(data: T) -> (r: Self)
        ensures
            r.data == data,
    {
        Node { data }
    }
}

impl Node<i64> {
    /// Renders the cell as text: the decimal rendering of its data.
    pub fn to_text(&self) -> (r: String)
        ensures
            r@ == crate::decimal::int_text(self.data as int),
    {
        crate::decimal::i64_to_text(self.data)
    }
}

impl<T: PartialEq> PartialEq for Node<T> {
    /// Two cells are equal exactly when the data they hold is.
    fn eq(&self, other: &Self) -> bool {
        self.data == other.data
    }
}

impl<T: PartialEq> vstd::std_specs::cmp::PartialEqSpecImpl for Node<T> {
    open spec fn obeys_eq_spec() -> bool {
        T::obeys_eq_spec()
    }

    open spec fn eq_spec(&self, other: &Self) -> bool {
        self.data.eq_spec(&other.data)
    }
}

impl<T: Default> Default for Node<T> {
    /// A cell holding the element type's default value.
    fn default() -> (r: Self)
        ensures
            call_ensures(T::default, (), r.data),
    {
        Node::new(T::default())
    }
}

} // verus!
