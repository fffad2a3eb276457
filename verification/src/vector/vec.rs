use vstd::prelude::*;
use vstd::std_specs::cmp::PartialEqSpec;

verus! {

/// Holds of exactly the capacities that the growth policy can ever produce:
/// 0 before the first insertion, and afterwards the doubling sequence
/// 4, 8, 16, 32, ...
pub open spec fn doubling_capacity(c: nat) -> bool
    decreases c,
{
    if c == 0 {
        true
    } else if c == 4 {
        true
    } else {
        c > 4 && c % 2 == 0 && doubling_capacity(c / 2)
    }
}

/// The slot count the growth policy provisions for `n` stored elements:
/// no buffer while the array is empty, otherwise the smallest member of
/// 4, 8, 16, 32, ... that holds `n` elements.
pub open spec fn required_capacity(n: nat) -> nat
    decreases n,
{
    if n == 0 {
        0
    } else if n <= 4 {
        4
    } else {
        2 * required_capacity(((n + 1) / 2) as nat)
    }
}

/// The capacities the growth policy can produce are 4 or more, and even.
proof fn lemma_doubling_capacity_low(c: nat)
    requires
        doubling_capacity(c),
        c > 0,
    ensures
        c >= 4,
        c % 2 == 0,
{
}

/// `required_capacity` always holds the length, is itself a capacity the
/// policy can produce, and is at least 4 once anything is stored.
pub proof fn lemma_required_capacity_bounds(n: nat)
    ensures
        n <= required_capacity(n),
        doubling_capacity(required_capacity(n)),
        n > 0 ==> required_capacity(n) >= 4,
    decreases n,
{
    if n > 4 {
        let m = ((n + 1) / 2) as nat;
        lemma_required_capacity_bounds(m);
        assert(n <= 2 * m);
        assert(required_capacity(n) == 2 * required_capacity(m));
        assert(doubling_capacity(required_capacity(n)));
    }
}

/// How one insertion moves the provisioned capacity: the first insertion
/// provisions four slots, an insertion into a partly filled buffer keeps the
/// capacity, and an insertion into a full buffer doubles it.
pub proof fn lemma_required_capacity_step(n: nat)
    ensures
        n == 0 ==> required_capacity((n + 1) as nat) == 4,
        0 < n < required_capacity(n) ==> required_capacity((n + 1) as nat) == required_capacity(n),
        0 < n == required_capacity(n) ==> required_capacity((n + 1) as nat) == 2 * n,
    decreases n,
{
    lemma_required_capacity_bounds(n);
    if n == 4 {
        assert(required_capacity(5nat) == 2 * required_capacity(3nat));
        assert(required_capacity(3nat) == 4);
    }
    if n > 4 {
        let m = ((n + 1) / 2) as nat;
        lemma_required_capacity_step(m);
        lemma_required_capacity_bounds(m);
        if n % 2 == 1 {
            // an odd length never fills the (even) capacity, and the next
            // length rounds up to the same half
            assert((n + 2) / 2 == m);
            lemma_doubling_capacity_low(required_capacity(n));
        } else {
            assert(m == n / 2);
            assert((n + 2) / 2 == m + 1);
            assert(required_capacity((n + 1) as nat) == 2 * required_capacity((m + 1) as nat));
            if n < required_capacity(n) {
                assert(m < required_capacity(m));
            } else {
                assert(m == required_capacity(m));
            }
        }
    }
}

/// `required_capacity(n)` is the least capacity the policy can produce that
/// holds `n` elements.
pub proof fn lemma_required_capacity_minimal(c: nat, n: nat)
    requires
        doubling_capacity(c),
        c > 0,
        c >= n,
    ensures
        c >= required_capacity(n),
    decreases c,
{
    lemma_doubling_capacity_low(c);
    if n > 4 {
        let m = ((n + 1) / 2) as nat;
        assert(c > 4);
        assert(c / 2 >= m);
        lemma_doubling_capacity_low(c / 2);
        lemma_required_capacity_minimal(c / 2, m);
    }
}

/// A growable contiguous array with explicit capacity management.
///
/// The array starts empty with no buffer.  The first insertion provisions
/// four slots; once all slots are filled, an insertion doubles the slot
/// count before writing.  Capacity never shrinks: no removal operation is
/// defined for this structure.
///
/// `buf` is the contiguous storage holding the `length` live elements, and
/// `capacity` records the slot count the doubling policy has provisioned.
/// The array owns its buffer exclusively, so dropping it finalizes exactly
/// the stored elements and releases the backing storage once.  Mutable
/// element access goes through an exclusive borrow of the whole array: no
/// reference into the buffer can be held across an insertion.
#[derive(Debug)]
pub struct Vector<T> {
    buf: Vec<T>,
    capacity: usize,
}

impl<T> View for Vector<T> {
    type V = Seq<T>;

    closed spec fn view(&self) -> Seq<T> {
        self.buf@
    }
}

impl<T> Vector<T> {
    /// Number of slots provisioned in the backing buffer.
    pub closed spec fn cap(&self) -> nat {
        self.capacity as nat
    }

    /// Satisfied by every vector the public operations can produce: the
    /// capacity is exactly what the doubling policy yields for the current
    /// length.  In particular the length never exceeds the capacity.
    pub open spec fn well_formed(&self) -> bool {
        self.cap() == required_capacity(self@.len())
    }

    /// Constructs an empty array.  No allocation is provisioned until the
    /// first insertion.
    pub fn new() -> (r: Self)
        ensures
            r@ == Seq::<T>::empty(),
            r.cap() == 0,
            r.well_formed(),
    {
        Vector { buf: Vec::new(), capacity: 0 }
    }

    /// Returns the current slot count.
    pub fn capacity(&self) -> (r: usize)
        ensures
            r == self.cap(),
    {
        self.capacity
    }

    /// Returns the number of stored elements.
    pub fn len(&self) -> (r: usize)
        ensures
            r == self@.len(),
    {
        self.buf.len()
    }

    /// Appends `value` as the new last element.
    ///
    /// Zero-sized element types are ruled out up front: the structure
    /// manages its buffer by slot arithmetic, which is meaningless for
    /// elements without a storage footprint.  A capacity computation that
    /// would not fit the machine word is likewise excluded, since it cannot
    /// be satisfied by any allocation.
    pub fn push(&mut self, value: T)
        requires
            old(self).well_formed(),
            vstd::layout::size_of::<T>() > 0,
            old(self)@.len() == old(self).cap() ==> 2 * old(self).cap() <= usize::MAX,
        ensures
            final(self).well_formed(),
            final(self)@ == old(self)@.push(value),
            final(self)@.len() == old(self)@.len() + 1,
            final(self)@[old(self)@.len() as int] == value,
            old(self).cap() == 0 ==> final(self).cap() == 4,
            old(self)@.len() < old(self).cap() ==> final(self).cap() == old(self).cap(),
            old(self)@.len() == old(self).cap() && old(self).cap() > 0 ==> final(self).cap() == 2
                * old(self).cap(),
    {
        proof {
            lemma_required_capacity_bounds(old(self)@.len());
            lemma_required_capacity_step(old(self)@.len());
        }
        if self.capacity == 0 {
            // first insertion: provision four slots and write into slot 0
            self.buf.push(value);
            self.capacity = 4;
        } else if self.buf.len() < self.capacity {
            // a free slot is available: write into it
            self.buf.push(value);
        } else {
            // buffer full: double the capacity, then write
            let new_capacity = self.capacity * 2;
            self.capacity = new_capacity;
            self.buf.push(value);
        }
    }

    /// Returns a reference to the element at `idx`, or nothing when `idx`
    /// is out of range.  Never fails and never mutates.
    pub fn get(&self, idx: usize) -> (r: Option<&T>)
        ensures
            idx < self@.len() ==> (r matches Some(v) && *v == self@[idx as int]),
            idx >= self@.len() ==> r is None,
    {
        if idx < self.buf.len() {
            Some(&self.buf[idx])
        } else {
            None
        }
    }

    /// Like [`Self::get`], but hands out a reference through which the
    /// element can be replaced in place.  No growth or reallocation is
    /// triggered, and an out-of-range index is reported as an absent
    /// result.
    pub fn get_mut(&mut self, idx: usize) -> (r: Option<&mut T>)
        ensures
            final(self).cap() == old(self).cap(),
            idx < old(self)@.len() ==> (r matches Some(el) && *el == old(self)@[idx as int]
                && final(self)@ == old(self)@.update(idx as int, *final(el))),
            idx >= old(self)@.len() ==> (r is None && final(self)@ == old(self)@),
    {
        if idx < self.buf.len() {
            Some(&mut self.buf[idx])
        } else {
            None
        }
    }

    /// Indexed access: the element at `idx`.  Unlike [`Self::get`], an
    /// out-of-range index is a contract violation, so callers must stay in
    /// bounds.
    pub fn index(&self, idx: usize) -> (r: &T)
        requires
            idx < self@.len(),
        ensures
            *r == self@[idx as int],
    {
        &self.buf[idx]
    }

    /// Indexed mutation: a mutable reference to the element at `idx`, with
    /// the same bounds contract as [`Self::index`].
    pub fn index_mut(&mut self, idx: usize) -> (r: &mut T)
        requires
            idx < old(self)@.len(),
        ensures
            final(self).cap() == old(self).cap(),
            *r == old(self)@[idx as int],
            final(self)@ == old(self)@.update(idx as int, *final(r)),
    {
        &mut self.buf[idx]
    }
}

impl<T: PartialEq> Vector<T> {
    /// Linear scan from index 0 upward: the index of the first element that
    /// compares equal to `finding`, or nothing when no element does.
    pub fn search(&self, finding: T) -> (r: Option<usize>)
        ensures
            T::obeys_eq_spec() ==> match r {
                Some(i) => i < self@.len() && self@[i as int].eq_spec(&finding) && (forall|j: int|
                    0 <= j < i ==> !(#[trigger] self@[j]).eq_spec(&finding)),
                None => forall|j: int| 0 <= j < self@.len() ==> !(#[trigger] self@[j]).eq_spec(
                    &finding,
                ),
            },
    {
        let n = self.buf.len();
        for i in 0..n
            invariant
                n == self@.len(),
                T::obeys_eq_spec() ==> forall|j: int|
                    0 <= j < i ==> !(#[trigger] self@[j]).eq_spec(&finding),
        {
            if self.buf[i] == finding {
                return Some(i);
            }
        }
        None
    }
}

impl<T: PartialEq> PartialEq for Vector<T> {
    /// Two arrays are equal when their lengths match and the elements at
    /// corresponding indices compare equal; capacity does not participate.
    fn eq(&self, other: &Self) -> bool {
        if self.buf.len() != other.buf.len() {
            return false;
        }
        let n = self.buf.len();
        for i in 0..n
            invariant
                n == self@.len(),
                self@.len() == other@.len(),
                T::obeys_eq_spec() ==> forall|j: int|
                    0 <= j < i ==> (#[trigger] self@[j]).eq_spec(&other@[j]),
        {
            if self.buf[i] != other.buf[i] {
                return false;
            }
        }
        true
    }
}

impl<T: PartialEq> vstd::std_specs::cmp::PartialEqSpecImpl for Vector<T> {
    open spec fn obeys_eq_spec() -> bool {
        T::obeys_eq_spec()
    }

    open spec fn eq_spec(&self, other: &Self) -> bool {
        self@.len() == other@.len() && (forall|i: int|
            0 <= i < self@.len() ==> (#[trigger] self@[i]).eq_spec(&other@[i]))
    }
}

impl<T> Default for Vector<T> {
    /// An empty array, exactly as [`Vector::new`] builds one.
    fn default() -> (r: Self)
        ensures
            r@ == Seq::<T>::empty(),
            r.cap() == 0,
            r.well_formed(),
    {
        Vector::new()
    }
}

/// For every reachable array, the length never exceeds the capacity.
pub proof fn lemma_length_le_capacity<T>(v: &Vector<T>)
    requires
        v.well_formed(),
    ensures
        v@.len() <= v.cap(),
{
    lemma_required_capacity_bounds(v@.len());
}

/// For every reachable array, the capacity is 0 or a value from the
/// doubling sequence 4, 8, 16, 32, ...; no other capacity can arise.
pub proof fn lemma_capacity_in_doubling_sequence<T>(v: &Vector<T>)
    requires
        v.well_formed(),
    ensures
        doubling_capacity(v.cap()),
{
    lemma_required_capacity_bounds(v@.len());
}

/// A non-empty reachable array has the smallest capacity from the doubling
/// sequence that holds its length: pushing n elements leaves the capacity
/// at the least member of 4, 8, 16, ... that is at least n.
pub proof fn lemma_capacity_minimal<T>(v: &Vector<T>)
    requires
        v.well_formed(),
        v@.len() > 0,
    ensures
        v.cap() >= v@.len(),
        doubling_capacity(v.cap()),
        forall|c: nat| c > 0 && c >= v@.len() && #[trigger] doubling_capacity(c) ==> c >= v.cap(),
{
    lemma_required_capacity_bounds(v@.len());
    assert forall|c: nat| c > 0 && c >= v@.len() && #[trigger] doubling_capacity(c) implies c
        >= v.cap() by {
        lemma_required_capacity_minimal(c, v@.len());
    }
}

/// Equality compares exactly the stored contents: when the element equality
/// agrees with logical equality, two arrays are equal precisely when they
/// hold the same sequence of elements.  Differing lengths, or a single
/// differing element, break equality; capacity never enters into it.
pub proof fn lemma_eq_mirrors_contents<T: PartialEq>(a: &Vector<T>, b: &Vector<T>)
    requires
        forall|x: T, y: T| #[trigger] x.eq_spec(&y) <==> x == y,
    ensures
        a.eq_spec(b) <==> a@ =~= b@,
{
}

} // verus!
