//! The call stack: a LIFO of 16-bit return addresses, pushed on subroutine
//! call and popped on return. Popping with no frames is a malformed-program
//! condition, so `pop` demands a non-empty stack; the interpreter checks
//! before calling and surfaces the underflow as an error.

use vstd::prelude::*;

verus! {

pub struct Stack {
    data: Vec<u16>,
}

impl Stack {
    /// The stored return addresses, bottom first.
    pub closed spec fn view(self) -> Seq<u16> {
        self.data@
    }

    pub fn new() -> (r: Stack)
        ensures
            r@ == Seq::<u16>::empty(),
    {
        Stack { data: Vec::new() }
    }

    pub fn push(&mut self, data: u16)
        ensures
            final(self)@ == old(self)@.push(data),
    {
        self.data.push(data);
    }

    /// Remove and return the top (most recently pushed) address.
    pub fn pop(&mut self) -> (r: u16)
        requires
            old(self)@.len() > 0,
        ensures
            r == old(self)@.last(),
            final(self)@ == old(self)@.drop_last(),
    {
        let value = self.data.pop().unwrap();

        value
    }

    /// How many frames are on the stack.
    pub fn len(&self) -> (r: usize)
        ensures
            r == self@.len(),
    {
        self.data.len()
    }
}

} // verus!
