//! A growable vector that keeps its own capacity: it starts with none, takes
//! room for one element at the first push, and doubles its room whenever it
//! is full.
use vstd::prelude::*;

verus! {

/// A growable vector of `T`.
pub struct SVec<T> {
    data: Vec<T>,
    cap: usize,
}

/// The room a full vector with room `cap` grows to.
pub open spec fn grown(cap: nat) -> nat {
    if cap == 0 { 1 } else { 2 * cap }
}

impl<T> View for SVec<T> {
    type V = Seq<T>;

    closed spec fn view(&self) -> Seq<T> {
        self.data@
    }
}

impl<T> SVec<T> {
    /// The number of elements the vector has room for.
    pub closed spec fn capacity(&self) -> nat {
        self.cap as nat
    }

    /// An empty vector with no room.
    pub fn new() -> (r: SVec<T>)
        ensures
            r@ == Seq::<T>::empty(),
            r.capacity() == 0,
    {
        SVec { data: Vec::new(), cap: 0 }
    }

    /// Takes room for one element when there is none, and doubles the room
    /// otherwise.
    fn grow(&mut self)
        requires
            old(self).cap <= usize::MAX / 2,
        ensures
            final(self)@ == old(self)@,
            final(self).capacity() == grown(old(self).capacity()),
    {
        let new_cap = if self.cap == 0 { 1 } else { self.cap * 2 };
        if new_cap > self.data.len() {
            self.data.reserve(new_cap - self.data.len());
        }
        self.cap = new_cap;
    }

    /// Appends `elem`, growing the room first when the vector is full.
    ///
    /// Growing needs the doubled room to be a valid allocation size, hence the
    /// bound on the length of a full vector.
    pub fn push(&mut self, elem: T)
        requires
            old(self).capacity() == old(self)@.len() ==> old(self)@.len() <= isize::MAX / 2,
        ensures
            final(self)@ == old(self)@.push(elem),
            final(self).capacity() == if old(self).capacity() == old(self)@.len() {
                grown(old(self).capacity())
            } else {
                old(self).capacity()
            },
    {
        if self.cap == self.data.len() {
            self.grow();
        }
        self.data.push(elem);
    }

    /// Removes and returns the last element; `None` when empty.
    pub fn pop(&mut self) -> (r: Option<T>)
        ensures
            old(self)@.len() == 0 ==> r is None && final(self)@ == old(self)@,
            old(self)@.len() > 0 ==> r == Some(old(self)@.last()) && final(self)@ == old(self)@.drop_last(),
            final(self).capacity() == old(self).capacity(),
    {
        self.data.pop()
    }

    /// Inserts `elem` at `index`, shifting the elements after it, growing the
    /// room first when the vector is full.
    pub fn insert(&mut self, index: usize, elem: T)
        requires
            index <= old(self)@.len(),
            old(self).capacity() == old(self)@.len() ==> old(self)@.len() <= isize::MAX / 2,
        ensures
            final(self)@ == old(self)@.insert(index as int, elem),
            final(self).capacity() == if old(self).capacity() == old(self)@.len() {
                grown(old(self).capacity())
            } else {
                old(self).capacity()
            },
    {
        if self.data.len() == self.cap {
            self.grow();
        }
        self.data.insert(index, elem);
    }

    /// Removes and returns the element at `index`, shifting the elements after
    /// it.
    pub fn remove(&mut self, index: usize) -> (r: T)
        requires
            index < old(self)@.len(),
        ensures
            r == old(self)@[index as int],
            final(self)@ == old(self)@.remove(index as int),
            final(self).capacity() == old(self).capacity(),
    {
        self.data.remove(index)
    }

    /// The elements as a slice.
    pub fn deref(&self) -> (r: &[T])
        ensures
            r@ == self@,
    {
        self.data.as_slice()
    }

    /// The elements as a mutable slice.
    pub fn deref_mut(&mut self) -> (r: &mut [T])
        ensures
            r@ == old(self)@,
            final(r)@ == final(self)@,
            final(self).capacity() == old(self).capacity(),
    {
        self.data.as_mut_slice()
    }
}

/// Pushing and inserting keep the room at least the length: a full vector
/// grows before it takes the new element.
pub proof fn lemma_growth_keeps_room(len: nat, cap: nat)
    requires
        len <= cap,
    ensures
        len + 1 <= (if cap == len { grown(cap) } else { cap }),
{
}

/// Popping right after pushing `x` gives `x` back and leaves the elements as
/// they were.
pub proof fn lemma_pop_undoes_push<T>(s: Seq<T>, x: T)
    ensures
        s.push(x).len() > 0,
        s.push(x).last() == x,
        s.push(x).drop_last() == s,
{
    assert(s.push(x).drop_last() =~= s);
}

/// Removing at `i` right after inserting `x` at `i` gives `x` back and leaves
/// the elements as they were.
pub proof fn lemma_remove_undoes_insert<T>(s: Seq<T>, i: int, x: T)
    requires
        0 <= i <= s.len(),
    ensures
        i < s.insert(i, x).len(),
        s.insert(i, x)[i] == x,
        s.insert(i, x).remove(i) == s,
{
    assert(s.insert(i, x).remove(i) =~= s);
}

} // verus!
