//! The operand stack: a bounded LIFO of 256-bit words.

use vstd::prelude::*;

use primitive_types::U256;

use crate::ret::Return;
use crate::u256::u256_nat;

verus! {

pub const STACK_LIMIT: usize = 1024;

/// The operand stack of one call frame. Its abstract value is the sequence
/// of the words' numeric values, bottom first; the depth never exceeds 1024.
pub struct Stack {
    data: Vec<U256>,
}

impl Stack {
    /// The stack as a sequence of numeric values, bottom first.
    pub closed spec fn view(&self) -> Seq<nat> {
        self.data@.map(|i: int, v: U256| u256_nat(v))
    }

    /// Every word on the stack denotes a value below 2^256.
    pub proof fn lemma_view_bounded(&self)
        ensures
            forall|i: int| 0 <= i < self@.len() ==> #[trigger] self@[i] < crate::u256::w256(),
    {
        assert forall|i: int| 0 <= i < self@.len() implies #[trigger] self@[i]
            < crate::u256::w256() by {
            crate::u256::lemma_u256_nat_bound(self.data@[i]);
        }
    }

    pub open spec fn wf(&self) -> bool {
        self@.len() <= STACK_LIMIT
    }

    pub fn new() -> (r: Stack)
        ensures
            r@ == Seq::<nat>::empty(),
            r.wf(),
    {
        let r = Stack { data: Vec::new() };
        proof {
            assert(r@ =~= Seq::<nat>::empty());
        }
        r
    }

    pub fn len(&self) -> (r: usize)
        ensures
            r == self@.len(),
    {
        self.data.len()
    }

    /// Push a word; `StackOverflow` (and no change) when the stack is full.
    pub fn push(&mut self, value: U256) -> (r: Return)
        requires
            old(self).wf(),
        ensures
            final(self).wf(),
            old(self)@.len() < STACK_LIMIT ==> r == Return::Continue && final(self)@ == old(self)@.push(u256_nat(value)),
            old(self)@.len() >= STACK_LIMIT ==> r == Return::StackOverflow && *final(self) == *old(self),
    {
        if self.data.len() >= STACK_LIMIT {
            return Return::StackOverflow;
        }
        self.data.push(value);
        proof {
            assert(self@ =~= old(self)@.push(u256_nat(value)));
        }
        Return::Continue
    }

    /// Pop the top word; `StackUnderflow` (and no change) when empty.
    pub fn pop(&mut self) -> (r: Result<U256, Return>)
        requires
            old(self).wf(),
        ensures
            final(self).wf(),
            old(self)@.len() > 0 ==> r is Ok && u256_nat(r->Ok_0) == old(self)@.last() && final(self)@ == old(self)@.drop_last(),
            old(self)@.len() == 0 ==> r == Err::<U256, Return>(Return::StackUnderflow) && *final(self) == *old(self),
    {
        if self.data.len() == 0 {
            return Err(Return::StackUnderflow);
        }
        match self.data.pop() {
            Some(v) => {
                proof {
                    assert(self@ =~= old(self)@.drop_last());
                }
                Ok(v)
            },
            None => Err(Return::StackUnderflow),
        }
    }

    /// Read the `n`-th word from the top, the top being `n == 1`.
    pub fn peek(&self, n: usize) -> (r: U256)
        requires
            1 <= n <= self@.len(),
        ensures
            u256_nat(r) == self@[self@.len() - n],
    {
        self.data[self.data.len() - n]
    }

    /// Duplicate the `n`-th word from the top, the top being `n == 1`.
    pub fn dup(&mut self, n: usize) -> (r: Return)
        requires
            old(self).wf(),
            1 <= n <= 16,
        ensures
            final(self).wf(),
            old(self)@.len() < n ==> r == Return::StackUnderflow && *final(self) == *old(self),
            old(self)@.len() >= n && old(self)@.len() >= STACK_LIMIT ==> r == Return::StackOverflow
                && *final(self) == *old(self),
            old(self)@.len() >= n && old(self)@.len() < STACK_LIMIT ==> r == Return::Continue
                && final(self)@ == old(self)@.push(old(self)@[old(self)@.len() - n]),
    {
        if self.data.len() < n {
            return Return::StackUnderflow;
        }
        if self.data.len() >= STACK_LIMIT {
            return Return::StackOverflow;
        }
        let v = self.data[self.data.len() - n];
        self.data.push(v);
        proof {
            assert(self@ =~= old(self)@.push(old(self)@[old(self)@.len() - n]));
        }
        Return::Continue
    }

    /// Swap the top word with the `n + 1`-th from the top.
    pub fn swap(&mut self, n: usize) -> (r: Return)
        requires
            old(self).wf(),
            1 <= n <= 16,
        ensures
            final(self).wf(),
            old(self)@.len() <= n ==> r == Return::StackUnderflow && *final(self) == *old(self),
            old(self)@.len() > n ==> r == Return::Continue && final(self)@ == old(self)@.update(
                old(self)@.len() - 1,
                old(self)@[old(self)@.len() - 1 - n],
            ).update(old(self)@.len() - 1 - n, old(self)@[old(self)@.len() - 1]),
    {
        let len = self.data.len();
        if len <= n {
            return Return::StackUnderflow;
        }
        let top = self.data[len - 1];
        let other = self.data[len - 1 - n];
        self.data.set(len - 1, other);
        self.data.set(len - 1 - n, top);
        proof {
            assert(self@ =~= old(self)@.update(
                old(self)@.len() - 1,
                old(self)@[old(self)@.len() - 1 - n],
            ).update(old(self)@.len() - 1 - n, old(self)@[old(self)@.len() - 1]));
        }
        Return::Continue
    }
}

} // verus!
