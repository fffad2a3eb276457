//! From-scratch data structures with machine-checked contracts.
//!
//! The core of the crate is [`vector::vec::Vector`], a growable contiguous
//! array that starts unallocated, provisions four slots on the first
//! insertion and doubles its capacity whenever it fills up.  Around it stand
//! a couple of simpler container exercises: two revisions of a linked list,
//! a binary tree and a key/value pair.

pub mod binary_tree;
pub mod decimal;
pub mod dictionary;
pub mod linked_list;
pub mod vector;
