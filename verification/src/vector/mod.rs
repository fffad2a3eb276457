//! The growable contiguous array and its growth-policy specification.

pub mod vec;
