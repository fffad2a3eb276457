//! Building blocks for a dictionary: the key/value pair.

pub mod pair;
