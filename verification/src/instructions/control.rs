//! Control flow: jumps over the validated jump map, the program counter,
//! and the two opcodes that surface a memory range to the caller.

use vstd::prelude::*;

use crate::interpreter::{frame_const, only_gas_changed, Interpreter};
use crate::ret::Return;
use crate::u256::{make_u256, u256_as_usize, u256_is_zero};

verus! {

/// `JUMP`: pop the target; a target outside the jump map ends the frame
/// with `InvalidJump` and moves nothing else.
pub fn jump(interp: &mut Interpreter) -> (r: Return)
    requires
        old(interp).wf_base(),
    ensures
        final(interp).wf_base(),
        frame_const(*old(interp), *final(interp)),
        final(interp).memory@ == old(interp).memory@,
        final(interp).gas == old(interp).gas,
        final(interp).return_data_buffer@ == old(interp).return_data_buffer@,
        final(interp).return_range_start == old(interp).return_range_start,
        final(interp).return_range_end == old(interp).return_range_end,
        old(interp).stack@.len() < 1 ==> r == Return::StackUnderflow && final(interp).stack@ == old(interp).stack@ && final(interp).pc == old(interp).pc,
        old(interp).stack@.len() >= 1 ==> ({
            let dest = old(interp).stack@.last();
            &&& final(interp).stack@ == old(interp).stack@.drop_last()
            &&& (if dest <= usize::MAX && dest < old(interp).contract.bytecode.orig_len_spec()
                && old(interp).contract.bytecode.jumpmap_spec()[dest as int] {
                r == Return::Continue && final(interp).pc == dest
            } else {
                r == Return::InvalidJump && final(interp).pc == old(interp).pc
            })
        }),
        r == Return::Continue ==> final(interp).wf(),
{
    let dest_word = match interp.stack.pop() {
        Ok(v) => v,
        Err(e) => { return e },
    };
    let dest = match u256_as_usize(&dest_word) {
        Some(d) => d,
        None => { return Return::InvalidJump },
    };
    if interp.contract.is_valid_jump(dest) {
        proof {
            interp.contract.bytecode.lemma_wf();
        }
        interp.pc = dest;
        Return::Continue
    } else {
        Return::InvalidJump
    }
}

/// `JUMPI`: pop target and condition; jump when the condition is nonzero,
/// else charge the fall-through gas block and continue in place.
pub fn jumpi(interp: &mut Interpreter) -> (r: Return)
    requires
        old(interp).wf_base(),
        1 <= old(interp).pc <= old(interp).contract.bytecode.code_spec().len(),
    ensures
        final(interp).wf_base(),
        frame_const(*old(interp), *final(interp)),
        final(interp).memory@ == old(interp).memory@,
        final(interp).return_data_buffer@ == old(interp).return_data_buffer@,
        final(interp).return_range_start == old(interp).return_range_start,
        final(interp).return_range_end == old(interp).return_range_end,
        final(interp).gas.remaining_spec() <= old(interp).gas.remaining_spec(),
        final(interp).gas.limit_spec() == old(interp).gas.limit_spec(),
        old(interp).stack@.len() < 2 ==> r == Return::StackUnderflow && final(interp).stack@ == old(interp).stack@ && final(interp).pc == old(interp).pc && final(interp).gas == old(interp).gas,
        old(interp).stack@.len() >= 2 ==> ({
            let dest = old(interp).stack@.last();
            let cond = old(interp).stack@[old(interp).stack@.len() - 2];
            &&& final(interp).stack@ == old(interp).stack@.drop_last().drop_last()
            &&& (if cond != 0 {
                final(interp).gas == old(interp).gas && (if dest <= usize::MAX && dest < old(interp).contract.bytecode.orig_len_spec() && old(interp).contract.bytecode.jumpmap_spec()[dest as int] {
                    r == Return::Continue && final(interp).pc == dest
                } else {
                    r == Return::InvalidJump && final(interp).pc == old(interp).pc
                })
            } else {
                ({
                    let cost = old(interp).contract.bytecode.gas_blocks_spec()[old(interp).pc - 1];
                    final(interp).pc == old(interp).pc && (if cost <= old(interp).gas.remaining_spec() {
                        r == Return::Continue && final(interp).gas.remaining_spec() == old(interp).gas.remaining_spec() - cost
                    } else {
                        r == Return::OutOfGas && final(interp).gas.remaining_spec() == old(interp).gas.remaining_spec()
                    })
                })
            })
        }),
        r == Return::Continue && old(interp).wf() ==> final(interp).wf(),
{
    if interp.stack.len() < 2 {
        return Return::StackUnderflow;
    }
    let dest_word = match interp.stack.pop() {
        Ok(v) => v,
        Err(e) => { return e },
    };
    let cond = match interp.stack.pop() {
        Ok(v) => v,
        Err(e) => { return e },
    };
    if !u256_is_zero(&cond) {
        let dest = match u256_as_usize(&dest_word) {
            Some(d) => d,
            None => { return Return::InvalidJump },
        };
        if interp.contract.is_valid_jump(dest) {
            proof {
                interp.contract.bytecode.lemma_wf();
            }
            interp.pc = dest;
            Return::Continue
        } else {
            Return::InvalidJump
        }
    } else {
        let pc = interp.program_counter();
        interp.add_next_gas_block(pc - 1)
    }
}

/// `JUMPDEST`: charge the gas block that starts at this instruction.
pub fn jumpdest(interp: &mut Interpreter) -> (r: Return)
    requires
        old(interp).wf_base(),
        1 <= old(interp).pc <= old(interp).contract.bytecode.code_spec().len(),
    ensures
        final(interp).wf_base(),
        only_gas_changed(*old(interp), *final(interp)),
        final(interp).gas.limit_spec() == old(interp).gas.limit_spec(),
        final(interp).gas.refunded_spec() == old(interp).gas.refunded_spec(),
        ({
            let cost = old(interp).contract.bytecode.gas_blocks_spec()[old(interp).pc - 1];
            if cost <= old(interp).gas.remaining_spec() {
                r == Return::Continue && final(interp).gas.remaining_spec() == old(interp).gas.remaining_spec() - cost
            } else {
                r == Return::OutOfGas && final(interp).gas.remaining_spec() == old(interp).gas.remaining_spec()
            }
        }),
{
    let pc = interp.program_counter();
    interp.add_next_gas_block(pc - 1)
}

/// `PC`: push this opcode's own offset.
pub fn pc(interp: &mut Interpreter) -> (r: Return)
    requires
        old(interp).wf_base(),
        1 <= old(interp).pc,
    ensures
        final(interp).wf_base(),
        crate::interpreter::only_stack_changed(*old(interp), *final(interp)),
        old(interp).stack@.len() >= crate::stack::STACK_LIMIT ==> r == Return::StackOverflow
            && final(interp).stack@ == old(interp).stack@,
        old(interp).stack@.len() < crate::stack::STACK_LIMIT ==> r == Return::Continue && final(interp).stack@ == old(interp).stack@.push((old(interp).pc - 1) as nat),
{
    let here = interp.program_counter() - 1;
    let word = make_u256(here as u64);
    interp.stack.push(word)
}

/// `RETURN` and `REVERT` share this body: pop offset and length, grow
/// memory over the range, and record it as the frame's return slice.
pub fn ret_range(interp: &mut Interpreter, terminal: Return) -> (r: Return)
    requires
        old(interp).wf_base(),
        terminal == Return::Return || terminal == Return::Revert,
    ensures
        final(interp).wf_base(),
        frame_const(*old(interp), *final(interp)),
        final(interp).pc == old(interp).pc,
        final(interp).return_data_buffer@ == old(interp).return_data_buffer@,
        final(interp).gas.remaining_spec() <= old(interp).gas.remaining_spec(),
        final(interp).gas.limit_spec() == old(interp).gas.limit_spec(),
        r == Return::StackUnderflow || r == Return::OutOfGas || r == Return::InvalidMemoryRange
            || r == terminal,
        old(interp).stack@.len() < 2 ==> r == Return::StackUnderflow,
        r == Return::StackUnderflow ==> final(interp).stack@ == old(interp).stack@,
        old(interp).stack@.len() >= 2 && (r == Return::OutOfGas || r == Return::InvalidMemoryRange)
            ==> final(interp).stack@ == old(interp).stack@.drop_last().drop_last(),
        old(interp).stack@.len() >= 2 && old(interp).stack@[old(interp).stack@.len() - 2]
            > usize::MAX ==> r == Return::OutOfGas,
        old(interp).stack@.len() >= 2 && old(interp).stack@[old(interp).stack@.len() - 2]
            <= usize::MAX && old(interp).stack@[old(interp).stack@.len() - 2] != 0 && old(interp).stack@.last() > usize::MAX ==> r == Return::OutOfGas,
        old(interp).stack@.len() >= 2 && old(interp).stack@[old(interp).stack@.len() - 2]
            <= usize::MAX && old(interp).stack@[old(interp).stack@.len() - 2] != 0 && old(interp).stack@.last() <= usize::MAX && !crate::interpreter::can_grow_memory(
            *old(interp),
            old(interp).stack@.last(),
            old(interp).stack@[old(interp).stack@.len() - 2],
        ) ==> r == crate::interpreter::grow_fail_code(
            old(interp).memory@.len() as nat,
            old(interp).memory_limit as nat,
            old(interp).stack@.last(),
            old(interp).stack@[old(interp).stack@.len() - 2],
        ),
        old(interp).stack@.len() >= 2 ==> (r == terminal <==> ({
            let start = old(interp).stack@.last();
            let len = old(interp).stack@[old(interp).stack@.len() - 2];
            len <= usize::MAX && (len == 0 || (start <= usize::MAX
                && crate::interpreter::can_grow_memory(*old(interp), start, len)))
        })),
        r == terminal ==> ({
            let start = old(interp).stack@.last();
            let len = old(interp).stack@[old(interp).stack@.len() - 2];
            &&& final(interp).stack@ == old(interp).stack@.drop_last().drop_last()
            &&& final(interp).memory@ == crate::interpreter::zero_extended(
                old(interp).memory@,
                final(interp).memory@.len() as nat,
            )
            &&& final(interp).gas.remaining_spec() == old(interp).gas.remaining_spec()
                - crate::interpreter::mem_expansion_cost(
                old(interp).memory@.len() as nat,
                final(interp).memory@.len() as nat,
            )
            &&& (len == 0 ==> final(interp).return_range_start == usize::MAX && final(interp).return_range_end == usize::MAX && final(interp).memory@ == old(interp).memory@)
            &&& (len != 0 ==> final(interp).return_range_start == start && final(interp).return_range_end == start + len && start + len <= final(interp).memory@.len() && final(interp).memory@.len() == crate::interpreter::grown_len(
                old(interp).memory@.len() as nat,
                start,
                len,
            ))
        }),
        r != terminal ==> final(interp).memory@ == old(interp).memory@ && final(interp).gas == old(interp).gas && final(interp).return_range_start == old(interp).return_range_start && final(interp).return_range_end == old(interp).return_range_end,
{
    if interp.stack.len() < 2 {
        return Return::StackUnderflow;
    }
    let start_word = match interp.stack.pop() {
        Ok(v) => v,
        Err(e) => { return e },
    };
    let len_word = match interp.stack.pop() {
        Ok(v) => v,
        Err(e) => { return e },
    };
    let len = match u256_as_usize(&len_word) {
        Some(l) => l,
        None => { return Return::OutOfGas },
    };
    if len == 0 {
        interp.return_range_start = usize::MAX;
        interp.return_range_end = usize::MAX;
    } else {
        let offset = match u256_as_usize(&start_word) {
            Some(o) => o,
            None => { return Return::OutOfGas },
        };
        let resized = interp.resize_memory(offset, len);
        if !matches!(resized, Return::Continue) {
            return resized;
        }
        let mlen = interp.memory.effective_len();
        proof {
            assert(offset + len <= mlen);
        }
        interp.return_range_start = offset;
        interp.return_range_end = offset + len;
    }
    terminal
}

/// `RETURN`: surface a memory range and stop successfully.
pub fn ret(interp: &mut Interpreter) -> (r: Return)
    requires
        old(interp).wf_base(),
    ensures
        final(interp).wf_base(),
        frame_const(*old(interp), *final(interp)),
        final(interp).pc == old(interp).pc,
        final(interp).return_data_buffer@ == old(interp).return_data_buffer@,
        final(interp).gas.remaining_spec() <= old(interp).gas.remaining_spec(),
        final(interp).gas.limit_spec() == old(interp).gas.limit_spec(),
        r == Return::StackUnderflow || r == Return::OutOfGas || r == Return::InvalidMemoryRange
            || r == Return::Return,
        old(interp).stack@.len() < 2 ==> r == Return::StackUnderflow,
        r == Return::StackUnderflow ==> final(interp).stack@ == old(interp).stack@,
        old(interp).stack@.len() >= 2 && (r == Return::OutOfGas || r == Return::InvalidMemoryRange)
            ==> final(interp).stack@ == old(interp).stack@.drop_last().drop_last(),
        old(interp).stack@.len() >= 2 && old(interp).stack@[old(interp).stack@.len() - 2]
            > usize::MAX ==> r == Return::OutOfGas,
        old(interp).stack@.len() >= 2 && old(interp).stack@[old(interp).stack@.len() - 2]
            <= usize::MAX && old(interp).stack@[old(interp).stack@.len() - 2] != 0 && old(interp).stack@.last() > usize::MAX ==> r == Return::OutOfGas,
        old(interp).stack@.len() >= 2 && old(interp).stack@[old(interp).stack@.len() - 2]
            <= usize::MAX && old(interp).stack@[old(interp).stack@.len() - 2] != 0 && old(interp).stack@.last() <= usize::MAX && !crate::interpreter::can_grow_memory(
            *old(interp),
            old(interp).stack@.last(),
            old(interp).stack@[old(interp).stack@.len() - 2],
        ) ==> r == crate::interpreter::grow_fail_code(
            old(interp).memory@.len() as nat,
            old(interp).memory_limit as nat,
            old(interp).stack@.last(),
            old(interp).stack@[old(interp).stack@.len() - 2],
        ),
        old(interp).stack@.len() >= 2 ==> (r == Return::Return <==> ({
            let start = old(interp).stack@.last();
            let len = old(interp).stack@[old(interp).stack@.len() - 2];
            len <= usize::MAX && (len == 0 || (start <= usize::MAX
                && crate::interpreter::can_grow_memory(*old(interp), start, len)))
        })),
        r == Return::Return ==> ({
            let start = old(interp).stack@.last();
            let len = old(interp).stack@[old(interp).stack@.len() - 2];
            &&& final(interp).stack@ == old(interp).stack@.drop_last().drop_last()
            &&& final(interp).memory@ == crate::interpreter::zero_extended(
                old(interp).memory@,
                final(interp).memory@.len() as nat,
            )
            &&& final(interp).gas.remaining_spec() == old(interp).gas.remaining_spec()
                - crate::interpreter::mem_expansion_cost(
                old(interp).memory@.len() as nat,
                final(interp).memory@.len() as nat,
            )
            &&& (len == 0 ==> final(interp).return_range_start == usize::MAX && final(interp).return_range_end == usize::MAX && final(interp).memory@ == old(interp).memory@)
            &&& (len != 0 ==> final(interp).return_range_start == start && final(interp).return_range_end == start + len && start + len <= final(interp).memory@.len() && final(interp).memory@.len() == crate::interpreter::grown_len(
                old(interp).memory@.len() as nat,
                start,
                len,
            ))
        }),
        r != Return::Return ==> final(interp).memory@ == old(interp).memory@ && final(interp).gas == old(interp).gas && final(interp).return_range_start == old(interp).return_range_start && final(interp).return_range_end == old(interp).return_range_end,
{
    ret_range(interp, Return::Return)
}

/// `REVERT`: surface a memory range and roll the frame back.
pub fn revert(interp: &mut Interpreter) -> (r: Return)
    requires
        old(interp).wf_base(),
    ensures
        final(interp).wf_base(),
        frame_const(*old(interp), *final(interp)),
        final(interp).pc == old(interp).pc,
        final(interp).return_data_buffer@ == old(interp).return_data_buffer@,
        final(interp).gas.remaining_spec() <= old(interp).gas.remaining_spec(),
        final(interp).gas.limit_spec() == old(interp).gas.limit_spec(),
        r == Return::StackUnderflow || r == Return::OutOfGas || r == Return::InvalidMemoryRange
            || r == Return::Revert,
        old(interp).stack@.len() < 2 ==> r == Return::StackUnderflow,
        r == Return::StackUnderflow ==> final(interp).stack@ == old(interp).stack@,
        old(interp).stack@.len() >= 2 && (r == Return::OutOfGas || r == Return::InvalidMemoryRange)
            ==> final(interp).stack@ == old(interp).stack@.drop_last().drop_last(),
        old(interp).stack@.len() >= 2 && old(interp).stack@[old(interp).stack@.len() - 2]
            > usize::MAX ==> r == Return::OutOfGas,
        old(interp).stack@.len() >= 2 && old(interp).stack@[old(interp).stack@.len() - 2]
            <= usize::MAX && old(interp).stack@[old(interp).stack@.len() - 2] != 0 && old(interp).stack@.last() > usize::MAX ==> r == Return::OutOfGas,
        old(interp).stack@.len() >= 2 && old(interp).stack@[old(interp).stack@.len() - 2]
            <= usize::MAX && old(interp).stack@[old(interp).stack@.len() - 2] != 0 && old(interp).stack@.last() <= usize::MAX && !crate::interpreter::can_grow_memory(
            *old(interp),
            old(interp).stack@.last(),
            old(interp).stack@[old(interp).stack@.len() - 2],
        ) ==> r == crate::interpreter::grow_fail_code(
            old(interp).memory@.len() as nat,
            old(interp).memory_limit as nat,
            old(interp).stack@.last(),
            old(interp).stack@[old(interp).stack@.len() - 2],
        ),
        old(interp).stack@.len() >= 2 ==> (r == Return::Revert <==> ({
            let start = old(interp).stack@.last();
            let len = old(interp).stack@[old(interp).stack@.len() - 2];
            len <= usize::MAX && (len == 0 || (start <= usize::MAX
                && crate::interpreter::can_grow_memory(*old(interp), start, len)))
        })),
        r == Return::Revert ==> ({
            let start = old(interp).stack@.last();
            let len = old(interp).stack@[old(interp).stack@.len() - 2];
            &&& final(interp).stack@ == old(interp).stack@.drop_last().drop_last()
            &&& final(interp).memory@ == crate::interpreter::zero_extended(
                old(interp).memory@,
                final(interp).memory@.len() as nat,
            )
            &&& final(interp).gas.remaining_spec() == old(interp).gas.remaining_spec()
                - crate::interpreter::mem_expansion_cost(
                old(interp).memory@.len() as nat,
                final(interp).memory@.len() as nat,
            )
            &&& (len == 0 ==> final(interp).return_range_start == usize::MAX && final(interp).return_range_end == usize::MAX && final(interp).memory@ == old(interp).memory@)
            &&& (len != 0 ==> final(interp).return_range_start == start && final(interp).return_range_end == start + len && start + len <= final(interp).memory@.len() && final(interp).memory@.len() == crate::interpreter::grown_len(
                old(interp).memory@.len() as nat,
                start,
                len,
            ))
        }),
        r != Return::Revert ==> final(interp).memory@ == old(interp).memory@ && final(interp).gas == old(interp).gas && final(interp).return_range_start == old(interp).return_range_start && final(interp).return_range_end == old(interp).return_range_end,
{
    ret_range(interp, Return::Revert)
}

} // verus!
