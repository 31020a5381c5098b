//! A definitional small-step machine for the host-free core of the
//! instruction set.
//!
//! `step_pure` says, as one spec function, what executing a single opcode
//! does to a frame — program counter, stack, memory, remaining gas and the
//! return range — wherever the opcode consults no host: the stack and
//! arithmetic families, memory, control flow, hashing, and the terminal
//! codes. Opcodes that need the host (or are left out of the model) map to
//! `None`, and the machine claims nothing about them. `machine_outcome`
//! iterates the step to a terminal code. `Interpreter::step_opcode` proves
//! that every defined step is realized exactly, and `Interpreter::run`
//! lifts that to whole programs: every outcome the machine defines is the
//! outcome the loop produces.

use vstd::prelude::*;

use crate::gas::{exp_cost_spec, sha3_cost_spec};
use crate::instructions::arithmetic::{
    binop_stack, op1_of, op2_of, op3_of, signextend_spec, ternop_stack,
};
use crate::instructions::bitwise::{byte_spec, sar_spec};
use crate::instructions::i256::{sdiv_int, sint_of, srem_int, wrap_int};
use crate::instructions::opcode;
use crate::instructions::system::{keccak256_of, keccak_empty_word};
use crate::interpreter::{
    grow_fail_code, grow_ok, grown_len, mem_expansion_cost, zero_extended,
};
use crate::ret::Return;
use crate::specification::SpecId;
use crate::stack::STACK_LIMIT;
use crate::u256::{and_nat, be_bytes_of, be_nat, bit_len, or_nat, w256, xor_nat};

verus! {

/// One machine frame: program counter, stack values, memory bytes,
/// remaining gas, and the return range (both ends `usize::MAX` while
/// unset).
pub type MachineState = (nat, Seq<nat>, Seq<u8>, nat, nat, nat);

pub open spec fn st_pc(s: MachineState) -> nat {
    s.0
}

pub open spec fn st_stack(s: MachineState) -> Seq<nat> {
    s.1
}

pub open spec fn st_mem(s: MachineState) -> Seq<u8> {
    s.2
}

pub open spec fn st_rem(s: MachineState) -> nat {
    s.3
}

pub open spec fn st_rs(s: MachineState) -> nat {
    s.4
}

pub open spec fn st_re(s: MachineState) -> nat {
    s.5
}

/// The value a modeled binary opcode computes from the top (`a`) and the
/// word under it (`b`).
pub open spec fn binop_value(op: u8, a: nat, b: nat) -> nat {
    if op == opcode::ADD {
        (a + b) % w256()
    } else if op == opcode::MUL {
        (a * b) % w256()
    } else if op == opcode::SUB {
        wrap_int(a - b)
    } else if op == opcode::DIV {
        if b == 0 {
            0
        } else {
            a / b
        }
    } else if op == opcode::SDIV {
        wrap_int(sdiv_int(sint_of(a), sint_of(b)))
    } else if op == opcode::MOD {
        if b == 0 {
            0
        } else {
            a % b
        }
    } else if op == opcode::SMOD {
        wrap_int(srem_int(sint_of(a), sint_of(b)))
    } else if op == opcode::SIGNEXTEND {
        signextend_spec(a, b)
    } else if op == opcode::LT {
        if a < b {
            1
        } else {
            0
        }
    } else if op == opcode::GT {
        if a > b {
            1
        } else {
            0
        }
    } else if op == opcode::SLT {
        if sint_of(a) < sint_of(b) {
            1
        } else {
            0
        }
    } else if op == opcode::SGT {
        if sint_of(a) > sint_of(b) {
            1
        } else {
            0
        }
    } else if op == opcode::EQ {
        if a == b {
            1
        } else {
            0
        }
    } else if op == opcode::AND {
        and_nat(a, b)
    } else if op == opcode::OR {
        or_nat(a, b)
    } else if op == opcode::XOR {
        xor_nat(a, b)
    } else if op == opcode::BYTE {
        byte_spec(a, b)
    } else if op == opcode::SHL {
        if a >= 256 {
            0
        } else {
            (b * vstd::arithmetic::power2::pow2(a)) % w256()
        }
    } else if op == opcode::SHR {
        if a >= 256 {
            0
        } else {
            b / vstd::arithmetic::power2::pow2(a)
        }
    } else {
        sar_spec(a, b)
    }
}

/// The modeled binary opcodes.
pub open spec fn is_binop(op: u8) -> bool {
    ||| op == opcode::ADD
    ||| op == opcode::MUL
    ||| op == opcode::SUB
    ||| op == opcode::DIV
    ||| op == opcode::SDIV
    ||| op == opcode::MOD
    ||| op == opcode::SMOD
    ||| op == opcode::SIGNEXTEND
    ||| op == opcode::LT
    ||| op == opcode::GT
    ||| op == opcode::SLT
    ||| op == opcode::SGT
    ||| op == opcode::EQ
    ||| op == opcode::AND
    ||| op == opcode::OR
    ||| op == opcode::XOR
    ||| op == opcode::BYTE
}

/// The bytes the machine models at all.
pub open spec fn is_modeled(op: u8) -> bool {
    ||| op == opcode::STOP
    ||| is_binop(op)
    ||| op == opcode::SHL
    ||| op == opcode::SHR
    ||| op == opcode::SAR
    ||| op == opcode::ADDMOD
    ||| op == opcode::MULMOD
    ||| op == opcode::EXP
    ||| op == opcode::ISZERO
    ||| op == opcode::NOT
    ||| op == opcode::SHA3
    ||| op == opcode::POP
    ||| op == opcode::MLOAD
    ||| op == opcode::MSTORE
    ||| op == opcode::MSTORE8
    ||| op == opcode::MSIZE
    ||| op == opcode::JUMP
    ||| op == opcode::JUMPI
    ||| op == opcode::JUMPDEST
    ||| op == opcode::PC
    ||| (opcode::PUSH1 <= op <= opcode::PUSH32)
    ||| (opcode::DUP1 <= op <= opcode::DUP16)
    ||| (opcode::SWAP1 <= op <= opcode::SWAP16)
    ||| op == opcode::RETURN
    ||| op == opcode::REVERT
    ||| !crate::instructions::dispatch::is_defined_opcode(op)
}

/// The machine step of one memory-touching word access: grow over
/// `[off, off + len)` out of `rem` gas, then place `value` on the stack
/// (`MLOAD`) or write the word (`MSTORE`) — shared shape of both.
pub open spec fn step_word_memory(op: u8, pc1: nat, stack2: Seq<nat>, s: MachineState, idx: nat, mem_limit: nat) -> Option<(Return, MachineState)> {
    let wlen: nat = if op == opcode::MSTORE8 {
        1
    } else {
        32
    };
    if idx > usize::MAX - wlen {
        Some((Return::OutOfGas, (pc1, stack2, st_mem(s), st_rem(s), st_rs(s), st_re(s))))
    } else if !grow_ok(st_mem(s).len(), mem_limit, st_rem(s), idx, wlen) {
        Some(
            (
                grow_fail_code(st_mem(s).len(), mem_limit, idx, wlen),
                (pc1, stack2, st_mem(s), st_rem(s), st_rs(s), st_re(s)),
            ),
        )
    } else {
        let newlen = grown_len(st_mem(s).len(), idx, wlen);
        let grown = zero_extended(st_mem(s), newlen);
        let rem2 = (st_rem(s) - mem_expansion_cost(st_mem(s).len(), newlen)) as nat;
        if op == opcode::MLOAD {
            Some(
                (
                    Return::Continue,
                    (
                        pc1,
                        stack2.push(be_nat(grown.subrange(idx as int, idx as int + 32))),
                        grown,
                        rem2,
                        st_rs(s),
                        st_re(s),
                    ),
                ),
            )
        } else if op == opcode::MSTORE {
            let v = op2_of(st_stack(s));
            let written = Seq::new(
                newlen,
                |j: int|
                    if idx <= j < idx + 32 {
                        be_bytes_of(v % w256(), 32)[j - idx]
                    } else {
                        grown[j]
                    },
            );
            Some((Return::Continue, (pc1, stack2, written, rem2, st_rs(s), st_re(s))))
        } else {
            let v = op2_of(st_stack(s));
            Some(
                (
                    Return::Continue,
                    (pc1, stack2, grown.update(idx as int, (v % 256) as u8), rem2, st_rs(s), st_re(s)),
                ),
            )
        }
    }
}

/// The machine step of `RETURN`/`REVERT`: record the surfaced range.
pub open spec fn step_ret(terminal: Return, pc1: nat, stack2: Seq<nat>, s: MachineState, mem_limit: nat) -> Option<(Return, MachineState)> {
    let start = op1_of(st_stack(s));
    let len = op2_of(st_stack(s));
    if len > usize::MAX {
        Some((Return::OutOfGas, (pc1, stack2, st_mem(s), st_rem(s), st_rs(s), st_re(s))))
    } else if len == 0 {
        Some(
            (
                terminal,
                (pc1, stack2, st_mem(s), st_rem(s), usize::MAX as nat, usize::MAX as nat),
            ),
        )
    } else if start > usize::MAX {
        Some((Return::OutOfGas, (pc1, stack2, st_mem(s), st_rem(s), st_rs(s), st_re(s))))
    } else if !grow_ok(st_mem(s).len(), mem_limit, st_rem(s), start, len) {
        Some(
            (
                grow_fail_code(st_mem(s).len(), mem_limit, start, len),
                (pc1, stack2, st_mem(s), st_rem(s), st_rs(s), st_re(s)),
            ),
        )
    } else {
        let newlen = grown_len(st_mem(s).len(), start, len);
        let grown = zero_extended(st_mem(s), newlen);
        let rem2 = (st_rem(s) - mem_expansion_cost(st_mem(s).len(), newlen)) as nat;
        Some((terminal, (pc1, stack2, grown, rem2, start, start + len)))
    }
}

/// One step of the host-free machine: fetch the byte at the counter,
/// advance past it, and apply the opcode; `None` where the model ends.
pub open spec fn step_pure(
    spec_id: u8,
    code: Seq<u8>,
    jumpmap: Seq<bool>,
    blocks: Seq<u64>,
    mem_limit: nat,
    s: MachineState,
) -> Option<(Return, MachineState)> {
    let op = code[st_pc(s) as int];
    let pc1 = st_pc(s) + 1;
    let stack = st_stack(s);
    let keep: MachineState = (pc1, stack, st_mem(s), st_rem(s), st_rs(s), st_re(s));
    if op == opcode::STOP {
        Some((Return::Stop, keep))
    } else if !crate::instructions::dispatch::is_defined_opcode(op) {
        Some((Return::InvalidOpcode, keep))
    } else if is_binop(op) || op == opcode::SHL || op == opcode::SHR || op == opcode::SAR {
        if (op == opcode::SHL || op == opcode::SHR || op == opcode::SAR)
            && !SpecId::CONSTANTINOPLE.enabled_in_spec(spec_id) {
            Some((Return::NotActivated, keep))
        } else if stack.len() < 2 {
            Some((Return::StackUnderflow, keep))
        } else {
            Some(
                (
                    Return::Continue,
                    (
                        pc1,
                        binop_stack(stack, binop_value(op, op1_of(stack), op2_of(stack))),
                        st_mem(s),
                        st_rem(s),
                        st_rs(s),
                        st_re(s),
                    ),
                ),
            )
        }
    } else if op == opcode::EXP {
        if stack.len() < 2 {
            Some((Return::StackUnderflow, keep))
        } else {
            let cost = exp_cost_spec(spec_id, bit_len(op2_of(stack)));
            if cost > st_rem(s) {
                Some(
                    (
                        Return::OutOfGas,
                        (
                            pc1,
                            stack.drop_last().drop_last(),
                            st_mem(s),
                            st_rem(s),
                            st_rs(s),
                            st_re(s),
                        ),
                    ),
                )
            } else {
                Some(
                    (
                        Return::Continue,
                        (
                            pc1,
                            binop_stack(
                                stack,
                                (vstd::arithmetic::power::pow(
                                    op1_of(stack) as int,
                                    op2_of(stack),
                                ) % (w256() as int)) as nat,
                            ),
                            st_mem(s),
                            (st_rem(s) - cost) as nat,
                            st_rs(s),
                            st_re(s),
                        ),
                    ),
                )
            }
        }
    } else if op == opcode::ADDMOD || op == opcode::MULMOD {
        if stack.len() < 3 {
            Some((Return::StackUnderflow, keep))
        } else {
            let n = op3_of(stack);
            let v: nat = if n == 0 {
                0
            } else if op == opcode::ADDMOD {
                (op1_of(stack) + op2_of(stack)) % n
            } else {
                (op1_of(stack) * op2_of(stack)) % n
            };
            Some(
                (
                    Return::Continue,
                    (pc1, ternop_stack(stack, v), st_mem(s), st_rem(s), st_rs(s), st_re(s)),
                ),
            )
        }
    } else if op == opcode::ISZERO || op == opcode::NOT {
        if stack.len() < 1 {
            Some((Return::StackUnderflow, keep))
        } else {
            let v: nat = if op == opcode::ISZERO {
                if op1_of(stack) == 0 {
                    1
                } else {
                    0
                }
            } else {
                (w256() - 1 - op1_of(stack)) as nat
            };
            Some(
                (
                    Return::Continue,
                    (pc1, stack.drop_last().push(v), st_mem(s), st_rem(s), st_rs(s), st_re(s)),
                ),
            )
        }
    } else if op == opcode::SHA3 {
        if stack.len() < 2 {
            Some((Return::StackUnderflow, keep))
        } else {
            let from = op1_of(stack);
            let len = op2_of(stack);
            let stack2 = stack.drop_last().drop_last();
            let fail: MachineState = (pc1, stack2, st_mem(s), st_rem(s), st_rs(s), st_re(s));
            if len > usize::MAX || sha3_cost_spec(len) is None || sha3_cost_spec(len)->0
                > st_rem(s) {
                Some((Return::OutOfGas, fail))
            } else {
                let rem1 = (st_rem(s) - sha3_cost_spec(len)->0) as nat;
                let fail1: MachineState = (pc1, stack2, st_mem(s), rem1, st_rs(s), st_re(s));
                if len == 0 {
                    Some(
                        (
                            Return::Continue,
                            (
                                pc1,
                                stack2.push(keccak_empty_word()),
                                st_mem(s),
                                rem1,
                                st_rs(s),
                                st_re(s),
                            ),
                        ),
                    )
                } else if from > usize::MAX - len {
                    Some((Return::OutOfGas, fail1))
                } else if !grow_ok(st_mem(s).len(), mem_limit, rem1, from, len) {
                    Some((grow_fail_code(st_mem(s).len(), mem_limit, from, len), fail1))
                } else {
                    let newlen = grown_len(st_mem(s).len(), from, len);
                    let grown = zero_extended(st_mem(s), newlen);
                    let rem2 = (rem1 - mem_expansion_cost(st_mem(s).len(), newlen)) as nat;
                    Some(
                        (
                            Return::Continue,
                            (
                                pc1,
                                stack2.push(
                                    be_nat(
                                        keccak256_of(
                                            grown.subrange(from as int, (from + len) as int),
                                        ),
                                    ),
                                ),
                                grown,
                                rem2,
                                st_rs(s),
                                st_re(s),
                            ),
                        ),
                    )
                }
            }
        }
    } else if op == opcode::POP {
        if stack.len() < 1 {
            Some((Return::StackUnderflow, keep))
        } else {
            Some(
                (
                    Return::Continue,
                    (pc1, stack.drop_last(), st_mem(s), st_rem(s), st_rs(s), st_re(s)),
                ),
            )
        }
    } else if op == opcode::MLOAD {
        if stack.len() < 1 {
            Some((Return::StackUnderflow, keep))
        } else {
            step_word_memory(op, pc1, stack.drop_last(), s, op1_of(stack), mem_limit)
        }
    } else if op == opcode::MSTORE || op == opcode::MSTORE8 {
        if stack.len() < 2 {
            Some((Return::StackUnderflow, keep))
        } else {
            step_word_memory(op, pc1, stack.drop_last().drop_last(), s, op1_of(stack), mem_limit)
        }
    } else if op == opcode::MSIZE {
        if stack.len() >= STACK_LIMIT {
            Some((Return::StackOverflow, keep))
        } else {
            Some(
                (
                    Return::Continue,
                    (pc1, stack.push(st_mem(s).len()), st_mem(s), st_rem(s), st_rs(s), st_re(s)),
                ),
            )
        }
    } else if op == opcode::JUMP {
        if stack.len() < 1 {
            Some((Return::StackUnderflow, keep))
        } else {
            let dest = op1_of(stack);
            let stack2 = stack.drop_last();
            if dest <= usize::MAX && dest < jumpmap.len() && jumpmap[dest as int] {
                Some(
                    (
                        Return::Continue,
                        (dest, stack2, st_mem(s), st_rem(s), st_rs(s), st_re(s)),
                    ),
                )
            } else {
                Some(
                    (
                        Return::InvalidJump,
                        (pc1, stack2, st_mem(s), st_rem(s), st_rs(s), st_re(s)),
                    ),
                )
            }
        }
    } else if op == opcode::JUMPI {
        if stack.len() < 2 {
            Some((Return::StackUnderflow, keep))
        } else {
            let dest = op1_of(stack);
            let cond = op2_of(stack);
            let stack2 = stack.drop_last().drop_last();
            if cond != 0 {
                if dest <= usize::MAX && dest < jumpmap.len() && jumpmap[dest as int] {
                    Some(
                        (
                            Return::Continue,
                            (dest, stack2, st_mem(s), st_rem(s), st_rs(s), st_re(s)),
                        ),
                    )
                } else {
                    Some(
                        (
                            Return::InvalidJump,
                            (pc1, stack2, st_mem(s), st_rem(s), st_rs(s), st_re(s)),
                        ),
                    )
                }
            } else {
                let cost = blocks[st_pc(s) as int];
                if cost <= st_rem(s) {
                    Some(
                        (
                            Return::Continue,
                            (
                                pc1,
                                stack2,
                                st_mem(s),
                                (st_rem(s) - cost) as nat,
                                st_rs(s),
                                st_re(s),
                            ),
                        ),
                    )
                } else {
                    Some(
                        (
                            Return::OutOfGas,
                            (pc1, stack2, st_mem(s), st_rem(s), st_rs(s), st_re(s)),
                        ),
                    )
                }
            }
        }
    } else if op == opcode::JUMPDEST {
        let cost = blocks[st_pc(s) as int];
        if cost <= st_rem(s) {
            Some(
                (
                    Return::Continue,
                    (pc1, stack, st_mem(s), (st_rem(s) - cost) as nat, st_rs(s), st_re(s)),
                ),
            )
        } else {
            Some((Return::OutOfGas, keep))
        }
    } else if op == opcode::PC {
        if stack.len() >= STACK_LIMIT {
            Some((Return::StackOverflow, keep))
        } else {
            Some(
                (
                    Return::Continue,
                    (pc1, stack.push(st_pc(s)), st_mem(s), st_rem(s), st_rs(s), st_re(s)),
                ),
            )
        }
    } else if opcode::PUSH1 <= op <= opcode::PUSH32 {
        let n = (op - opcode::PUSH1 + 1) as nat;
        if stack.len() >= STACK_LIMIT {
            Some(
                (
                    Return::StackOverflow,
                    (pc1 + n, stack, st_mem(s), st_rem(s), st_rs(s), st_re(s)),
                ),
            )
        } else {
            Some(
                (
                    Return::Continue,
                    (
                        pc1 + n,
                        stack.push(be_nat(code.subrange(pc1 as int, (pc1 + n) as int))),
                        st_mem(s),
                        st_rem(s),
                        st_rs(s),
                        st_re(s),
                    ),
                ),
            )
        }
    } else if opcode::DUP1 <= op <= opcode::DUP16 {
        let n = (op - opcode::DUP1 + 1) as nat;
        if stack.len() < n {
            Some((Return::StackUnderflow, keep))
        } else if stack.len() >= STACK_LIMIT {
            Some((Return::StackOverflow, keep))
        } else {
            Some(
                (
                    Return::Continue,
                    (
                        pc1,
                        stack.push(stack[stack.len() - n]),
                        st_mem(s),
                        st_rem(s),
                        st_rs(s),
                        st_re(s),
                    ),
                ),
            )
        }
    } else if opcode::SWAP1 <= op <= opcode::SWAP16 {
        let n = (op - opcode::SWAP1 + 1) as nat;
        if stack.len() <= n {
            Some((Return::StackUnderflow, keep))
        } else {
            Some(
                (
                    Return::Continue,
                    (
                        pc1,
                        stack.update(stack.len() - 1, stack[stack.len() - 1 - n]).update(
                            stack.len() - 1 - n,
                            stack[stack.len() - 1],
                        ),
                        st_mem(s),
                        st_rem(s),
                        st_rs(s),
                        st_re(s),
                    ),
                ),
            )
        }
    } else if op == opcode::RETURN {
        if stack.len() < 2 {
            Some((Return::StackUnderflow, keep))
        } else {
            step_ret(Return::Return, pc1, stack.drop_last().drop_last(), s, mem_limit)
        }
    } else if op == opcode::REVERT {
        if !SpecId::BYZANTIUM.enabled_in_spec(spec_id) {
            Some((Return::NotActivated, keep))
        } else if stack.len() < 2 {
            Some((Return::StackUnderflow, keep))
        } else {
            step_ret(Return::Revert, pc1, stack.drop_last().drop_last(), s, mem_limit)
        }
    } else {
        None
    }
}

/// The machine iterated to a terminal code, given enough `fuel`; `None`
/// when the fuel runs out or an unmodeled opcode is reached — the machine
/// then defines no outcome and claims nothing.
pub open spec fn machine_outcome(
    spec_id: u8,
    code: Seq<u8>,
    jumpmap: Seq<bool>,
    blocks: Seq<u64>,
    mem_limit: nat,
    s: MachineState,
    fuel: nat,
) -> Option<(Return, MachineState)>
    decreases fuel,
{
    if fuel == 0 {
        None
    } else {
        match step_pure(spec_id, code, jumpmap, blocks, mem_limit, s) {
            None => None,
            Some(out) => if out.0 == Return::Continue {
                machine_outcome(spec_id, code, jumpmap, blocks, mem_limit, out.1, (fuel - 1) as nat)
            } else {
                Some(out)
            },
        }
    }
}

/// The machine is total on exactly the modeled bytes: a step is defined
/// if and only if the fetched opcode is in the model.
pub proof fn lemma_step_defined(
    spec_id: u8,
    code: Seq<u8>,
    jumpmap: Seq<bool>,
    blocks: Seq<u64>,
    mem_limit: nat,
    s: MachineState,
)
    ensures
        step_pure(spec_id, code, jumpmap, blocks, mem_limit, s) is Some <==> is_modeled(
            code[st_pc(s) as int],
        ),
{
}

/// Any memory meeting `mstore`'s postcondition — window decodes to the
/// stored value, all else the zero-extended old bytes — is exactly the
/// machine's canonical write, because a 32-byte big-endian string is
/// determined by its value.
pub proof fn lemma_mstore_window(finalmem: Seq<u8>, oldmem: Seq<u8>, idx: nat, v: nat)
    requires
        v < w256(),
        idx as int + 32 <= finalmem.len(),
        be_nat(finalmem.subrange(idx as int, idx as int + 32)) == v,
        forall|j: int|
            0 <= j < finalmem.len() && !(idx <= j < idx + 32) ==> finalmem[j] == (if j
                < oldmem.len() {
                oldmem[j]
            } else {
                0u8
            }),
    ensures
        finalmem =~= Seq::new(
            finalmem.len() as nat,
            |j: int|
                if idx <= j < idx + 32 {
                    be_bytes_of(v % w256(), 32)[j - idx]
                } else {
                    zero_extended(oldmem, finalmem.len() as nat)[j]
                },
        ),
{
    crate::u256::lemma_be_nat_of_bytes(v % w256(), 32);
    crate::u256::lemma_pow2_256_val();
    vstd::arithmetic::div_mod::lemma_small_mod(v, w256());
    let window = finalmem.subrange(idx as int, idx as int + 32);
    let canonical = be_bytes_of(v % w256(), 32);
    vstd::arithmetic::div_mod::lemma_small_mod(v, vstd::arithmetic::power2::pow2(256));
    crate::u256::lemma_be_nat_injective(window, canonical);
    assert forall|j: int| 0 <= j < finalmem.len() implies finalmem[j] == (if idx <= j < idx + 32 {
        canonical[j - idx]
    } else {
        zero_extended(oldmem, finalmem.len() as nat)[j]
    }) by {
        if idx <= j < idx + 32 {
            assert(finalmem[j] == window[j - idx]);
        }
    }
}

/// Whether a frame's mutable views are exactly a machine state.
pub open spec fn matches_state(interp: crate::interpreter::Interpreter, s: MachineState) -> bool {
    &&& interp.pc == st_pc(s)
    &&& interp.stack@ == st_stack(s)
    &&& interp.memory@ == st_mem(s)
    &&& interp.gas.remaining_spec() == st_rem(s)
    &&& interp.return_range_start == st_rs(s)
    &&& interp.return_range_end == st_re(s)
}

} // verus!
