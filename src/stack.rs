use vstd::prelude::*;

verus! {

/// The largest capacity a stack may be created with.
pub const STACK_CEILING: usize = 1024;

/// Why a stack operation was refused.
#[derive(Copy, Clone, Debug, PartialEq, Eq, Structural)]
pub enum StackFault {
    /// A push onto a stack that already holds `capacity` values.
    Overflow,
    /// A pop from an empty stack.
    Underflow,
}

/// A last-in first-out buffer of values with a capacity fixed at construction.
#[derive(Debug)]
pub struct Stack<T> {
    size: usize,
    list: Vec<T>,
}

/// Pushing a value and popping it again gives back that value and the stack as it was before.
pub proof fn lemma_push_pop_round_trip<T>(s: Seq<T>, v: T)
    ensures
        s.push(v).len() > 0,
        s.push(v).last() == v,
        s.push(v).drop_last() == s,
{
    assert(s.push(v).drop_last() =~= s);
}

/// Values come off a stack in the reverse of the order in which they were pushed: after
/// pushing `vs` onto `s`, popping `vs.len()` times yields the last of `vs` first.
pub proof fn lemma_last_in_first_out<T>(s: Seq<T>, vs: Seq<T>, k: int)
    requires
        0 <= k < vs.len(),
    ensures
        (s + vs).len() - k > 0,
        (s + vs).take((s + vs).len() - k).last() == vs[vs.len() - 1 - k],
{
}

impl<T> Stack<T> {
    /// The values on the stack, bottom first.
    pub closed spec fn view(&self) -> Seq<T> {
        self.list@
    }

    pub closed spec fn capacity(&self) -> nat {
        self.size as nat
    }

    pub closed spec fn wf(&self) -> bool {
        &&& self.list@.len() <= self.size
        &&& self.size <= STACK_CEILING
    }

    pub fn new(size: usize) -> (r: Stack<T>)
        requires
            size <= STACK_CEILING,
        ensures
            r.wf(),
            r@ == Seq::<T>::empty(),
            r.capacity() == size,
    {
        Stack { size, list: Vec::new() }
    }

    pub fn push(&mut self, value: T) -> (r: Result<(), StackFault>)
        requires
            old(self).wf(),
        ensures
            final(self).wf(),
            final(self).capacity() == old(self).capacity(),
            old(self)@.len() < old(self).capacity() ==> r is Ok && final(self)@ == old(self)@.push(
                value,
            ),
            old(self)@.len() >= old(self).capacity() ==> r == Err::<(), StackFault>(
                StackFault::Overflow,
            ) && final(self)@ == old(self)@,
    {
        if self.list.len() >= self.size {
            return Err(StackFault::Overflow);
        }
        self.list.push(value);
        Ok(())
    }

    pub fn pop(&mut self) -> (r: Result<T, StackFault>)
        requires
            old(self).wf(),
        ensures
            final(self).wf(),
            final(self).capacity() == old(self).capacity(),
            old(self)@.len() > 0 ==> r == Ok::<T, StackFault>(old(self)@.last()) && final(self)@
                == old(self)@.drop_last(),
            old(self)@.len() == 0 ==> r == Err::<T, StackFault>(StackFault::Underflow)
                && final(self)@ == old(self)@,
    {
        match self.list.pop() {
            Some(v) => Ok(v),
            None => Err(StackFault::Underflow),
        }
    }

    pub fn len(&self) -> (r: usize)
        ensures
            r == self@.len(),
    {
        self.list.len()
    }

    /// The values on the stack, bottom first, for inspection.
    pub fn iter(&self) -> (r: &[T])
        ensures
            r@ == self@,
    {
        self.list.as_slice()
    }
}

} // verus!
