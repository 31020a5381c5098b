//! Memory opcodes: word load and store, single-byte store, and the touched
//! size.

use vstd::prelude::*;

use crate::interpreter::{
    can_grow_memory, grow_fail_code, grown_len, mem_expansion_cost, only_stack_changed,
    only_stack_memory_gas_changed, zero_extended, Interpreter,
};
use crate::ret::Return;
use crate::u256::{be_nat, make_u256, u256_as_usize, u256_low_byte, u256_nat};

verus! {

/// `MLOAD`: pop an offset, grow memory over the 32-byte window, and push
/// the word stored there big-endian.
pub fn mload(interp: &mut Interpreter) -> (r: Return)
    requires
        old(interp).wf_base(),
    ensures
        final(interp).wf_base(),
        only_stack_memory_gas_changed(*old(interp), *final(interp)),
        final(interp).gas.remaining_spec() <= old(interp).gas.remaining_spec(),
        final(interp).gas.limit_spec() == old(interp).gas.limit_spec(),
        final(interp).memory@.len() >= old(interp).memory@.len(),
        old(interp).stack@.len() < 1 ==> r == Return::StackUnderflow && final(interp).stack@ == old(interp).stack@,
        old(interp).stack@.len() >= 1 ==> (r == Return::Continue <==> old(interp).stack@.last()
            <= usize::MAX - 32 && can_grow_memory(*old(interp), old(interp).stack@.last(), 32)),
        old(interp).stack@.len() >= 1 && old(interp).stack@.last() > usize::MAX - 32 ==> r
            == Return::OutOfGas,
        old(interp).stack@.len() >= 1 && old(interp).stack@.last() <= usize::MAX - 32
            && !can_grow_memory(*old(interp), old(interp).stack@.last(), 32) ==> r
            == grow_fail_code(
            old(interp).memory@.len() as nat,
            old(interp).memory_limit as nat,
            old(interp).stack@.last(),
            32,
        ),
        old(interp).stack@.len() >= 1 && r != Return::Continue && r != Return::StackUnderflow
            ==> final(interp).stack@ == old(interp).stack@.drop_last(),
        r == Return::Continue ==> ({
            let index = old(interp).stack@.last();
            &&& old(interp).stack@.len() >= 1
            &&& index as int + 32 <= final(interp).memory@.len()
            &&& final(interp).memory@.len() == grown_len(old(interp).memory@.len() as nat, index, 32)
            &&& final(interp).memory@ == zero_extended(
                old(interp).memory@,
                final(interp).memory@.len() as nat,
            )
            &&& final(interp).gas.remaining_spec() == old(interp).gas.remaining_spec()
                - mem_expansion_cost(
                old(interp).memory@.len() as nat,
                final(interp).memory@.len() as nat,
            )
            &&& final(interp).stack@ == old(interp).stack@.drop_last().push(
                be_nat(final(interp).memory@.subrange(index as int, index as int + 32)),
            )
        }),
        r != Return::Continue ==> final(interp).memory@ == old(interp).memory@ && final(interp).gas == old(interp).gas,
{
    let index_word = match interp.stack.pop() {
        Ok(v) => v,
        Err(e) => { return e },
    };
    let index = match u256_as_usize(&index_word) {
        Some(i) => i,
        None => { return Return::OutOfGas },
    };
    if index > usize::MAX - 32 {
        return Return::OutOfGas;
    }
    let resized = interp.resize_memory(index, 32);
    if !matches!(resized, Return::Continue) {
        return resized;
    }
    let word = interp.memory.get_u256(index);
    interp.stack.push(word)
}

/// `MSTORE`: pop offset and word, grow memory, store the word big-endian.
pub fn mstore(interp: &mut Interpreter) -> (r: Return)
    requires
        old(interp).wf_base(),
    ensures
        final(interp).wf_base(),
        only_stack_memory_gas_changed(*old(interp), *final(interp)),
        final(interp).gas.remaining_spec() <= old(interp).gas.remaining_spec(),
        final(interp).gas.limit_spec() == old(interp).gas.limit_spec(),
        final(interp).memory@.len() >= old(interp).memory@.len(),
        old(interp).stack@.len() < 2 ==> r == Return::StackUnderflow && final(interp).stack@ == old(interp).stack@,
        old(interp).stack@.len() >= 2 ==> (r == Return::Continue <==> old(interp).stack@.last()
            <= usize::MAX - 32 && can_grow_memory(*old(interp), old(interp).stack@.last(), 32)),
        old(interp).stack@.len() >= 2 && old(interp).stack@.last() > usize::MAX - 32 ==> r
            == Return::OutOfGas,
        old(interp).stack@.len() >= 2 && old(interp).stack@.last() <= usize::MAX - 32
            && !can_grow_memory(*old(interp), old(interp).stack@.last(), 32) ==> r
            == grow_fail_code(
            old(interp).memory@.len() as nat,
            old(interp).memory_limit as nat,
            old(interp).stack@.last(),
            32,
        ),
        old(interp).stack@.len() >= 2 && r != Return::Continue && r != Return::StackUnderflow
            ==> final(interp).stack@ == old(interp).stack@.drop_last().drop_last(),
        r == Return::Continue ==> ({
            let index = old(interp).stack@.last();
            let value = old(interp).stack@[old(interp).stack@.len() - 2];
            &&& old(interp).stack@.len() >= 2
            &&& index as int + 32 <= final(interp).memory@.len()
            &&& final(interp).memory@.len() == grown_len(old(interp).memory@.len() as nat, index, 32)
            &&& final(interp).stack@ == old(interp).stack@.drop_last().drop_last()
            &&& be_nat(final(interp).memory@.subrange(index as int, index as int + 32)) == value
            &&& forall|j: int|
                0 <= j < final(interp).memory@.len() && !(index <= j < index + 32)
                    ==> final(interp).memory@[j] == (if j < old(interp).memory@.len() {
                    old(interp).memory@[j]
                } else {
                    0u8
                })
            &&& final(interp).gas.remaining_spec() == old(interp).gas.remaining_spec()
                - mem_expansion_cost(
                old(interp).memory@.len() as nat,
                final(interp).memory@.len() as nat,
            )
        }),
        r != Return::Continue ==> final(interp).memory@ == old(interp).memory@ && final(interp).gas == old(interp).gas,
{
    if interp.stack.len() < 2 {
        return Return::StackUnderflow;
    }
    let index_word = match interp.stack.pop() {
        Ok(v) => v,
        Err(e) => { return e },
    };
    let value = match interp.stack.pop() {
        Ok(v) => v,
        Err(e) => { return e },
    };
    let index = match u256_as_usize(&index_word) {
        Some(i) => i,
        None => { return Return::OutOfGas },
    };
    if index > usize::MAX - 32 {
        return Return::OutOfGas;
    }
    let resized = interp.resize_memory(index, 32);
    if !matches!(resized, Return::Continue) {
        return resized;
    }
    interp.memory.set_u256(index, value);
    Return::Continue
}

/// `MSTORE8`: pop offset and word, grow memory by one byte's window, store
/// the word's least significant byte.
pub fn mstore8(interp: &mut Interpreter) -> (r: Return)
    requires
        old(interp).wf_base(),
    ensures
        final(interp).wf_base(),
        only_stack_memory_gas_changed(*old(interp), *final(interp)),
        final(interp).gas.remaining_spec() <= old(interp).gas.remaining_spec(),
        final(interp).gas.limit_spec() == old(interp).gas.limit_spec(),
        final(interp).memory@.len() >= old(interp).memory@.len(),
        old(interp).stack@.len() < 2 ==> r == Return::StackUnderflow && final(interp).stack@ == old(interp).stack@,
        old(interp).stack@.len() >= 2 ==> (r == Return::Continue <==> old(interp).stack@.last()
            < usize::MAX && can_grow_memory(*old(interp), old(interp).stack@.last(), 1)),
        old(interp).stack@.len() >= 2 && old(interp).stack@.last() >= usize::MAX ==> r
            == Return::OutOfGas,
        old(interp).stack@.len() >= 2 && old(interp).stack@.last() < usize::MAX
            && !can_grow_memory(*old(interp), old(interp).stack@.last(), 1) ==> r
            == grow_fail_code(
            old(interp).memory@.len() as nat,
            old(interp).memory_limit as nat,
            old(interp).stack@.last(),
            1,
        ),
        old(interp).stack@.len() >= 2 && r != Return::Continue && r != Return::StackUnderflow
            ==> final(interp).stack@ == old(interp).stack@.drop_last().drop_last(),
        r == Return::Continue ==> ({
            let index = old(interp).stack@.last();
            let value = old(interp).stack@[old(interp).stack@.len() - 2];
            &&& old(interp).stack@.len() >= 2
            &&& index < final(interp).memory@.len()
            &&& final(interp).memory@.len() == grown_len(old(interp).memory@.len() as nat, index, 1)
            &&& final(interp).stack@ == old(interp).stack@.drop_last().drop_last()
            &&& final(interp).memory@[index as int] == value % 256
            &&& forall|j: int|
                0 <= j < final(interp).memory@.len() && j != index ==> final(interp).memory@[j] == (
                if j < old(interp).memory@.len() {
                    old(interp).memory@[j]
                } else {
                    0u8
                })
            &&& final(interp).gas.remaining_spec() == old(interp).gas.remaining_spec()
                - mem_expansion_cost(
                old(interp).memory@.len() as nat,
                final(interp).memory@.len() as nat,
            )
        }),
        r != Return::Continue ==> final(interp).memory@ == old(interp).memory@ && final(interp).gas == old(interp).gas,
{
    if interp.stack.len() < 2 {
        return Return::StackUnderflow;
    }
    let index_word = match interp.stack.pop() {
        Ok(v) => v,
        Err(e) => { return e },
    };
    let value = match interp.stack.pop() {
        Ok(v) => v,
        Err(e) => { return e },
    };
    let index = match u256_as_usize(&index_word) {
        Some(i) => i,
        None => { return Return::OutOfGas },
    };
    if index == usize::MAX {
        return Return::OutOfGas;
    }
    let resized = interp.resize_memory(index, 1);
    if !matches!(resized, Return::Continue) {
        return resized;
    }
    let byte = u256_low_byte(&value);
    interp.memory.set_byte(index, byte);
    Return::Continue
}

/// The store/load round trip: a frame whose memory holds a word `v`
/// big-endian at `index` — as `mstore` leaves it — pushes exactly `v` when
/// `mload` reads `index`, because a load only ever extends memory with
/// zeros beyond the old length and the stored window lies within it.
pub proof fn lemma_mstore_mload_roundtrip(pre: Interpreter, post: Interpreter, v: nat, index: int)
    requires
        0 <= index,
        index + 32 <= pre.memory@.len(),
        be_nat(pre.memory@.subrange(index, index + 32)) == v,
        post.memory@.len() >= pre.memory@.len(),
        post.memory@ == crate::interpreter::zero_extended(
            pre.memory@,
            post.memory@.len() as nat,
        ),
        pre.stack@.len() >= 1,
        post.stack@ == pre.stack@.drop_last().push(
            be_nat(post.memory@.subrange(index, index + 32)),
        ),
    ensures
        post.stack@.last() == v,
{
    assert(post.memory@.subrange(index, index + 32) =~= pre.memory@.subrange(index, index + 32));
}

/// `MSIZE`: push the touched memory length.
pub fn msize(interp: &mut Interpreter) -> (r: Return)
    requires
        old(interp).wf_base(),
    ensures
        final(interp).wf_base(),
        only_stack_changed(*old(interp), *final(interp)),
        old(interp).stack@.len() >= crate::stack::STACK_LIMIT ==> r == Return::StackOverflow
            && final(interp).stack@ == old(interp).stack@,
        old(interp).stack@.len() < crate::stack::STACK_LIMIT ==> r == Return::Continue && final(interp).stack@ == old(interp).stack@.push(old(interp).memory@.len() as nat),
{
    let len = interp.memory.effective_len();
    interp.stack.push(make_u256(len as u64))
}

} // verus!
