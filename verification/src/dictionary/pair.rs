use vstd::prelude::*;

verus! {

/// A key/value pair, the entry type of a dictionary.
#[derive(Debug)]
pub struct Pair<K, V> {
    pub key: K,
    pub value: V,
}

impl<K, V> Pair<K, V> {
    /// Constructs the pair of `key` and `value`.
    pub fn new(key: K, value: V) -> (r: Self)
        ensures
            r.key == key,
            r.value == value,
    {
        Pair { key, value }
    }
}

impl Pair<i64, i64> {
    /// Renders the pair as text: `(key: value)`.
    pub fn to_text(&self) -> (r: String)
        ensures
            r@ == crate::decimal::pair_text(self.key as int, self.value as int),
    {
        crate::decimal::i64_pair_to_text(self.key, self.value)
    }
}

impl<K: Default, V: Default> Default for Pair<K, V> {
    /// The pair of the two default values.
    fn default() -> (r: Self)
        ensures
            call_ensures(K::default, (), r.key),
            call_ensures(V::default, (), r.value),
    {
        Pair { key: K::default(), value: V::default() }
    }
}

} // verus!
