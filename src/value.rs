use vstd::prelude::*;

verus! {

/// The largest number of constants one chunk may hold: an index must fit in a byte.
pub const CONSTANTS_MAX: usize = 256;

/// An append-only pool of constants, indexed by position.
#[derive(Debug)]
pub struct ValueArray<V> {
    values: Vec<V>,
}

impl<V> ValueArray<V> {
    /// The constants, in the order they were added.
    pub closed spec fn view(&self) -> Seq<V> {
        self.values@
    }

    pub fn new() -> (r: ValueArray<V>)
        ensures
            r@ == Seq::<V>::empty(),
    {
        ValueArray { values: Vec::new() }
    }

    pub fn add(&mut self, value: V)
        ensures
            final(self)@ == old(self)@.push(value),
    {
        self.values.push(value)
    }

    pub fn len(&self) -> (r: usize)
        ensures
            r == self@.len(),
    {
        self.values.len()
    }

    pub fn index(&self, idx: usize) -> (r: &V)
        requires
            idx < self@.len(),
        ensures
            *r == self@[idx as int],
    {
        &self.values[idx]
    }
}

} // verus!
