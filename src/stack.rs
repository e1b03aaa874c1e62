//! The bounded operand stack.
use vstd::prelude::*;
use primitive_types::U256;
use crate::fault::Failure;
use crate::word::val;

verus! {

/// Maximum depth of the stack.
pub const STACK_LIMIT: usize = 1024;

/// The unsigned values of a sequence of words, in the same order.
pub open spec fn vals(s: Seq<U256>) -> Seq<nat> {
    s.map_values(|w: U256| val(w))
}

/// A LIFO of words; the top is the last element of the view.
pub struct Stack {
    items: Vec<U256>,
}

impl View for Stack {
    type V = Seq<nat>;

    closed spec fn view(&self) -> Seq<nat> {
        vals(self.items@)
    }
}

impl Stack {
    pub open spec fn wf(&self) -> bool {
        self@.len() <= STACK_LIMIT
    }

    pub fn new() -> (r: Stack)
        ensures
            r@ == Seq::<nat>::empty(),
            r.wf(),
    {
        let r = Stack { items: Vec::new() };
        assert(r@ =~= Seq::<nat>::empty());
        r
    }

    pub fn len(&self) -> (r: usize)
        ensures
            r == self@.len(),
    {
        self.items.len()
    }

    /// Pushes `w`, or fails with `StackOverflow` at full depth.
    pub fn push(&mut self, w: U256) -> (r: Result<(), Failure>)
        requires
            old(self).wf(),
        ensures
            final(self).wf(),
            old(self)@.len() < STACK_LIMIT ==> r is Ok && final(self)@ == old(self)@.push(val(w)),
            old(self)@.len() >= STACK_LIMIT ==> r == Err::<(), Failure>(Failure::StackOverflow)
                && final(self)@ == old(self)@,
    {
        if self.items.len() >= STACK_LIMIT {
            return Err(Failure::StackOverflow);
        }
        let ghost before = self.items@;
        self.items.push(w);
        assert(vals(self.items@) =~= vals(before).push(val(w)));
        Ok(())
    }

    /// Removes and returns the top, or fails with `StackUnderflow` when empty.
    pub fn pop(&mut self) -> (r: Result<U256, Failure>)
        requires
            old(self).wf(),
        ensures
            final(self).wf(),
            old(self)@.len() > 0 ==> r is Ok && val(r->Ok_0) == old(self)@.last()
                && final(self)@ == old(self)@.drop_last(),
            old(self)@.len() == 0 ==> r == Err::<U256, Failure>(Failure::StackUnderflow)
                && final(self)@ == old(self)@,
    {
        match self.items.pop() {
            Some(w) => {
                assert(vals(self.items@) =~= vals(old(self).items@).drop_last());
                Ok(w)
            },
            None => Err(Failure::StackUnderflow),
        }
    }

    /// The element `i` places below the top (0 = the top).
    pub fn get(&self, i: usize) -> (r: U256)
        requires
            i < self@.len(),
        ensures
            val(r) == self@[self@.len() - 1 - i],
    {
        self.items[self.items.len() - 1 - i]
    }

    /// Removes the top of a stack known not to be empty.
    pub fn drop_top(&mut self)
        requires
            old(self)@.len() > 0,
        ensures
            final(self)@ == old(self)@.drop_last(),
    {
        let ghost before = self.items@;
        self.items.pop();
        assert(vals(self.items@) =~= vals(before).drop_last());
    }

    /// The `n`-th element from the top (1 = the top), if the stack is that deep.
    pub fn peek(&self, n: usize) -> (r: Option<U256>)
        ensures
            1 <= n <= self@.len() ==> r is Some && val(r->Some_0) == self@[self@.len() - n],
            !(1 <= n <= self@.len()) ==> r is None,
    {
        if n == 0 || n > self.items.len() {
            None
        } else {
            Some(self.items[self.items.len() - n])
        }
    }

    /// Pushes a copy of the `n`-th element from the top.
    pub fn dup(&mut self, n: usize) -> (r: Result<(), Failure>)
        requires
            old(self).wf(),
            n >= 1,
        ensures
            final(self).wf(),
            old(self)@.len() < n ==> r == Err::<(), Failure>(Failure::StackUnderflow)
                && final(self)@ == old(self)@,
            n <= old(self)@.len() < STACK_LIMIT ==> r is Ok && final(self)@ == old(self)@.push(
                old(self)@[old(self)@.len() - n],
            ),
            n <= old(self)@.len() && old(self)@.len() >= STACK_LIMIT ==> r
                == Err::<(), Failure>(Failure::StackOverflow) && final(self)@ == old(self)@,
    {
        match self.peek(n) {
            Some(w) => self.push(w),
            None => Err(Failure::StackUnderflow),
        }
    }

    /// Exchanges the top with the element `n` below it.
    pub fn swap(&mut self, n: usize) -> (r: Result<(), Failure>)
        requires
            old(self).wf(),
            n >= 1,
        ensures
            final(self).wf(),
            old(self)@.len() <= n ==> r == Err::<(), Failure>(Failure::StackUnderflow)
                && final(self)@ == old(self)@,
            old(self)@.len() > n ==> r is Ok && final(self)@ == old(self)@.update(
                old(self)@.len() - 1,
                old(self)@[old(self)@.len() - 1 - n],
            ).update(old(self)@.len() - 1 - n, old(self)@.last()),
    {
        let len = self.items.len();
        if len <= n {
            return Err(Failure::StackUnderflow);
        }
        let top = self.items[len - 1];
        let other = self.items[len - 1 - n];
        let ghost before = self.items@;
        self.items.set(len - 1, other);
        self.items.set(len - 1 - n, top);
        assert(vals(self.items@) =~= vals(before).update(len - 1, val(other)).update(
            len - 1 - n,
            val(top),
        ));
        Ok(())
    }

    /// The elements from the top down.
    pub fn to_vec_top_first(&self) -> (r: Vec<U256>)
        ensures
            vals(r@) == self@.reverse(),
    {
        let mut out: Vec<U256> = Vec::new();
        let mut i: usize = self.items.len();
        while i > 0
            invariant
                i <= self.items@.len(),
                out@.len() == self.items@.len() - i,
                forall|j: int|
                    0 <= j < out@.len() ==> #[trigger] out@[j] == self.items@[self.items@.len()
                        - 1 - j],
            decreases i,
        {
            i = i - 1;
            out.push(self.items[i]);
        }
        assert(vals(out@) =~= self@.reverse());
        out
    }
}

} // verus!
