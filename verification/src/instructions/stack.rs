//! Plain stack opcodes: `POP`, `PUSH_n`, `DUP_n`, `SWAP_n`.

use vstd::prelude::*;

use crate::interpreter::{frame_const, only_stack_changed, Interpreter};
use crate::ret::Return;
use crate::stack::STACK_LIMIT;
use crate::u256::{be_nat, u256_from_be};

verus! {

/// `POP`: discard the top word.
pub fn pop(interp: &mut Interpreter) -> (r: Return)
    requires
        old(interp).wf_base(),
    ensures
        final(interp).wf_base(),
        only_stack_changed(*old(interp), *final(interp)),
        old(interp).stack@.len() < 1 ==> r == Return::StackUnderflow && final(interp).stack@ == old(interp).stack@,
        old(interp).stack@.len() >= 1 ==> r == Return::Continue && final(interp).stack@ == old(interp).stack@.drop_last(),
{
    match interp.stack.pop() {
        Ok(_) => Return::Continue,
        Err(e) => e,
    }
}

/// `PUSH_n`: read the next `n` code bytes as a big-endian word and push it;
/// the program counter strides over them either way.
pub fn push(interp: &mut Interpreter, n: usize) -> (r: Return)
    requires
        old(interp).wf_base(),
        1 <= n <= 32,
        old(interp).pc + n <= old(interp).contract.bytecode.code_spec().len(),
    ensures
        final(interp).wf_base(),
        frame_const(*old(interp), *final(interp)),
        final(interp).memory@ == old(interp).memory@,
        final(interp).gas == old(interp).gas,
        final(interp).return_data_buffer@ == old(interp).return_data_buffer@,
        final(interp).return_range_start == old(interp).return_range_start,
        final(interp).return_range_end == old(interp).return_range_end,
        final(interp).pc == old(interp).pc + n,
        old(interp).stack@.len() >= STACK_LIMIT ==> r == Return::StackOverflow && final(interp).stack@ == old(interp).stack@,
        old(interp).stack@.len() < STACK_LIMIT ==> r == Return::Continue && final(interp).stack@
            == old(interp).stack@.push(
            be_nat(
                old(interp).contract.bytecode.code_spec().subrange(
                    old(interp).pc as int,
                    old(interp).pc + n,
                ),
            ),
        ),
{
    let pc = interp.program_counter();
    let plen = interp.contract.bytecode.padded_len();
    proof {
        assert(pc + n <= plen);
    }
    let slice = interp.contract.bytecode.code_slice(pc, n);
    let word = u256_from_be(slice);
    let ret = interp.stack.push(word);
    interp.pc = pc + n;
    ret
}

/// `DUP_n`: duplicate the `n`-th word from the top.
pub fn dup(interp: &mut Interpreter, n: usize) -> (r: Return)
    requires
        old(interp).wf_base(),
        1 <= n <= 16,
    ensures
        final(interp).wf_base(),
        only_stack_changed(*old(interp), *final(interp)),
        old(interp).stack@.len() < n ==> r == Return::StackUnderflow && final(interp).stack@ == old(interp).stack@,
        old(interp).stack@.len() >= n && old(interp).stack@.len() >= STACK_LIMIT ==> r
            == Return::StackOverflow && final(interp).stack@ == old(interp).stack@,
        old(interp).stack@.len() >= n && old(interp).stack@.len() < STACK_LIMIT ==> r
            == Return::Continue && final(interp).stack@ == old(interp).stack@.push(
            old(interp).stack@[old(interp).stack@.len() - n],
        ),
{
    interp.stack.dup(n)
}

/// `SWAP_n`: swap the top word with the `n + 1`-th.
pub fn swap(interp: &mut Interpreter, n: usize) -> (r: Return)
    requires
        old(interp).wf_base(),
        1 <= n <= 16,
    ensures
        final(interp).wf_base(),
        only_stack_changed(*old(interp), *final(interp)),
        old(interp).stack@.len() <= n ==> r == Return::StackUnderflow && final(interp).stack@
            == old(interp).stack@,
        old(interp).stack@.len() > n ==> r == Return::Continue && final(interp).stack@ == old(interp).stack@.update(old(interp).stack@.len() - 1, old(interp).stack@[old(interp).stack@.len() - 1
            - n]).update(old(interp).stack@.len() - 1 - n, old(interp).stack@[old(interp).stack@.len() - 1]),
{
    interp.stack.swap(n)
}

} // verus!
