use vstd::prelude::*;
use vstd::std_specs::cmp::PartialEqSpec;
use vstd::std_specs::cmp::PartialOrdSpec;

use core::cmp::Ordering;

verus! {

/// A node of a binary tree, owning its two subtrees.
#[derive(Debug)]
pub struct Node<T> {
    pub left: Option<Box<Node<T>>>,
    pub right: Option<Box<Node<T>>>,
    pub data: T,
}

impl<T> Node<T> {
    /// A leaf node holding `data`, as a spec value.
    pub open spec fn spec_leaf(data: T) -> Node<T> {
        Node { left: None, right: None, data }
    }

    /// Constructs a leaf node holding `data`.
    pub fn new(data: T) -> (r: Self)
        ensures
            r == Self::spec_leaf(data),
    {
        Node { left: None, right: None, data }
    }

    /// A reference to the data stored in this node.
    pub fn get_data(&self) -> (r: &T)
        ensures
            *r == self.data,
    {
        &self.data
    }

    /// A mutable reference to the data stored in this node; the subtrees
    /// are left untouched.
    pub fn get_data_mut(&mut self) -> (r: &mut T)
        ensures
            *r == old(self).data,
            *final(self) == (Node {
                left: old(self).left,
                right: old(self).right,
                data: *final(r),
            }),
    {
        &mut self.data
    }
}

impl Node<i64> {
    /// Renders the node as text: the decimal rendering of its data.
    pub fn to_text(&self) -> (r: String)
        ensures
            r@ == crate::decimal::int_text(self.data as int),
    {
        crate::decimal::i64_to_text(self.data)
    }
}

impl<T: PartialOrd> Node<T> {
    /// What one insertion leaves of the subtree rooted at this node, in
    /// terms of the element type's comparison: a value equal to the node's
    /// data is dropped, a smaller value descends to the left and any other
    /// value to the right, and a missing child is filled with a fresh leaf.
    pub open spec fn spec_insert(self, data: T) -> Node<T>
        decreases self,
    {
        if self.data.eq_spec(&data) {
            self
        } else if data.partial_cmp_spec(&self.data) == Some(Ordering::Less) {
            match self.left {
                Some(node) => Node { left: Some(Box::new(node.spec_insert(data))), ..self },
                None => Node { left: Some(Box::new(Node::spec_leaf(data))), ..self },
            }
        } else {
            match self.right {
                Some(node) => Node { right: Some(Box::new(node.spec_insert(data))), ..self },
                None => Node { right: Some(Box::new(Node::spec_leaf(data))), ..self },
            }
        }
    }

    /// Inserts `data` into the subtree rooted at this node, keeping the
    /// search ordering and dropping values already present.
    pub fn insert(&mut self, data: T)
        ensures
            (T::obeys_eq_spec() && T::obeys_partial_cmp_spec()) ==> *final(self) == old(
                self,
            ).spec_insert(data),
        decreases *old(self),
    {
        if self.data == data {
            return ;
        }
        let target = if data < self.data {
            &mut self.left
        } else {
            &mut self.right
        };
        match target {
            Some(node) => {
                node.insert(data);
            },
            None => {
                *target = Some(Box::new(Node::new(data)));
            },
        }
    }
}

impl<T: Default> Default for Node<T> {
    /// A leaf node holding the element type's default value.
    fn default() -> (r: Self)
        ensures
            call_ensures(T::default, (), r.data),
            r.left is None,
            r.right is None,
    {
        Node::new(T::default())
    }
}

} // verus!
