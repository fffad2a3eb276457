//! A binary search tree built from individually owned nodes.

use vstd::prelude::*;
use vstd::std_specs::cmp::PartialEqSpec;
use vstd::std_specs::cmp::PartialOrdSpec;

pub mod node;

use node::Node;

verus! {

/// A binary search tree: a possibly absent root node that owns its
/// subtrees.
#[derive(Debug)]
pub struct BinaryTree<T> {
    pub root: Option<Box<Node<T>>>,
}

impl<T> BinaryTree<T> {
    /// Constructs a new empty tree.
    pub fn new() -> (r: Self)
        ensures
            r.root is None,
    {
        BinaryTree { root: None }
    }
}

impl<T: PartialOrd> BinaryTree<T> {
    /// What one insertion leaves of the tree: the first insertion makes
    /// the root, later ones descend by the element type's comparison.
    pub open spec fn spec_insert(self, data: T) -> BinaryTree<T> {
        match self.root {
            Some(node) => BinaryTree { root: Some(Box::new(node.spec_insert(data))) },
            None => BinaryTree { root: Some(Box::new(Node::spec_leaf(data))) },
        }
    }

    /// Inserts `data` into the tree, keeping the search ordering and
    /// dropping values already present.
    pub fn insert(&mut self, data: T)
        ensures
            (T::obeys_eq_spec() && T::obeys_partial_cmp_spec()) ==> *final(self) == old(
                self,
            ).spec_insert(data),
    {
        match &mut self.root {
            Some(node) => {
                node.insert(data);
            },
            None => {
                self.root = Some(Box::new(Node::new(data)));
            },
        }
    }
}

impl<T> Default for BinaryTree<T> {
    /// An empty tree, exactly as [`BinaryTree::new`] builds one.
    fn default() -> (r: Self)
        ensures
            r.root is None,
    {
        BinaryTree::new()
    }
}

} // verus!
