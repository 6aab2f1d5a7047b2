use crate::fault::Fault;
use vstd::prelude::*;

verus! {

/// Largest number of entries that a stack holds.
pub const STACK_CAPACITY: u16 = 16;

/// A bounded stack, used for the return addresses of subroutine calls. The
/// depth counter `sp` always equals the number of entries.
#[derive(Debug, Clone)]
pub struct Stack<T> {
    stack: Vec<T>,
    sp: u16,
}

impl<T> View for Stack<T> {
    type V = Seq<T>;

    /// The entries, the oldest first.
    closed spec fn view(&self) -> Seq<T> {
        self.stack@
    }
}

impl<T> Stack<T> {
    /// The depth counter agrees with the entries, and there are no more of
    /// them than the capacity.
    pub closed spec fn wf(&self) -> bool {
        self.stack@.len() == self.sp && self.sp <= STACK_CAPACITY
    }

    /// The depth of a stack never exceeds the capacity.
    pub proof fn lemma_bounded(&self)
        requires
            self.wf(),
        ensures
            self@.len() <= STACK_CAPACITY,
    {
    }

    /// An empty stack.
    pub fn new() -> (r: Stack<T>)
        ensures
            r.wf(),
            r@ == Seq::<T>::empty(),
    {
        Stack { stack: Vec::new(), sp: 0 }
    }

    /// Puts `value` on top, unless the stack is full.
    pub fn push(&mut self, value: T) -> (r: Result<(), Fault>)
        requires
            old(self).wf(),
        ensures
            final(self).wf(),
            old(self)@.len() < STACK_CAPACITY ==> r == Ok::<(), Fault>(())
                && final(self)@ == old(self)@.push(value),
            old(self)@.len() >= STACK_CAPACITY ==> r == Err::<(), Fault>(Fault::StackOverflow)
                && final(self)@ == old(self)@,
    {
        if self.sp < STACK_CAPACITY {
            self.stack.push(value);
            self.sp += 1;
            Ok(())
        } else {
            Err(Fault::StackOverflow)
        }
    }

    /// Takes the top entry off, unless the stack is empty.
    pub fn pop(&mut self) -> (r: Result<T, Fault>)
        requires
            old(self).wf(),
        ensures
            final(self).wf(),
            old(self)@.len() > 0 ==> r == Ok::<T, Fault>(old(self)@.last())
                && final(self)@ == old(self)@.drop_last(),
            old(self)@.len() == 0 ==> r == Err::<T, Fault>(Fault::StackUnderflow)
                && final(self)@ == old(self)@,
    {
        match self.stack.pop() {
            Some(value) => {
                self.sp -= 1;
                Ok(value)
            },
            None => Err(Fault::StackUnderflow),
        }
    }

    /// Number of entries.
    pub fn depth(&self) -> (r: u16)
        requires
            self.wf(),
        ensures
            r == self@.len(),
            r <= STACK_CAPACITY,
    {
        self.sp
    }
}

} // verus!
