//! One call frame: contract, program counter, stack, memory, gas, and the
//! dispatch loop.

use vstd::prelude::*;

use crate::bytecode::Contract;
use crate::gas::{memory_gas, memory_gas_spec, lemma_memory_gas_mono, words_of, Gas};
use crate::host::Host;
use crate::memory::Memory;
use crate::ret::Return;
use crate::specification::Spec;
use crate::stack::Stack;

verus! {

/// The mutable state of one call frame.
pub struct Interpreter {
    /// Immutable call inputs: code, calldata, identities, value.
    pub contract: Contract,
    /// Offset of the next byte to execute in the padded code.
    pub pc: usize,
    /// Word-addressable memory.
    pub memory: Memory,
    /// Operand stack.
    pub stack: Stack,
    /// Gas counters.
    pub gas: Gas,
    /// What the latest sub-call or creation returned.
    pub return_data_buffer: Vec<u8>,
    /// Start of the frame's own return slice in memory; `usize::MAX` means
    /// an empty return.
    pub return_range_start: usize,
    /// End of the frame's own return slice in memory.
    pub return_range_end: usize,
    /// Whether state-changing opcodes are forbidden in this frame.
    pub is_static: bool,
    /// Cap on memory growth in bytes.
    pub memory_limit: usize,
}

impl Interpreter {
    /// Everything except the program-counter bound: the component
    /// invariants and a meaningful return range.
    pub open spec fn wf_base(&self) -> bool {
        &&& self.contract.wf()
        &&& self.stack.wf()
        &&& self.memory.wf()
        &&& self.gas.wf()
        &&& (self.return_range_start == usize::MAX || (self.return_range_start
            <= self.return_range_end && self.return_range_end <= self.memory@.len()))
    }

    /// The running invariant: the next byte to execute exists (padding makes
    /// the byte after the last real instruction a `STOP`).
    pub open spec fn wf(&self) -> bool {
        &&& self.wf_base()
        &&& self.pc < self.contract.bytecode.code_spec().len()
    }

    /// What still holds once the frame has terminated: the counter may rest
    /// just past the final `STOP`.
    pub open spec fn wf_loop(&self) -> bool {
        &&& self.wf_base()
        &&& self.pc <= self.contract.bytecode.code_spec().len()
    }

    pub fn new(contract: Contract, gas_limit: u64, is_static: bool) -> (r: Interpreter)
        requires
            contract.wf(),
        ensures
            r.wf(),
            r.contract == contract,
            r.pc == 0,
            r.stack@ == Seq::<nat>::empty(),
            r.memory@ == Seq::<u8>::empty(),
            r.gas.limit_spec() == gas_limit,
            r.gas.remaining_spec() == gas_limit,
            r.gas.refunded_spec() == 0,
            r.return_data_buffer@ == Seq::<u8>::empty(),
            r.return_range_start == usize::MAX,
            r.is_static == is_static,
            r.memory_limit == usize::MAX,
    {
        proof {
            contract.bytecode.lemma_wf();
        }
        Interpreter {
            contract,
            pc: 0,
            memory: Memory::new(),
            stack: Stack::new(),
            gas: Gas::new(gas_limit),
            return_data_buffer: Vec::new(),
            return_range_start: usize::MAX,
            return_range_end: usize::MAX,
            is_static,
            memory_limit: usize::MAX,
        }
    }

    pub fn new_with_memory_limit(
        contract: Contract,
        gas_limit: u64,
        memory_limit: usize,
        is_static: bool,
    ) -> (r: Interpreter)
        requires
            contract.wf(),
        ensures
            r.wf(),
            r.contract == contract,
            r.pc == 0,
            r.stack@ == Seq::<nat>::empty(),
            r.memory@ == Seq::<u8>::empty(),
            r.gas.limit_spec() == gas_limit,
            r.gas.remaining_spec() == gas_limit,
            r.gas.refunded_spec() == 0,
            r.return_data_buffer@ == Seq::<u8>::empty(),
            r.return_range_start == usize::MAX,
            r.is_static == is_static,
            r.memory_limit == memory_limit,
    {
        let mut r = Interpreter::new(contract, gas_limit, is_static);
        r.memory_limit = memory_limit;
        r
    }

    /// The opcode the loop will execute next.
    pub fn current_opcode(&self) -> (r: u8)
        requires
            self.wf(),
        ensures
            r == self.contract.bytecode.code_spec()[self.pc as int],
    {
        self.contract.bytecode.opcode_at(self.pc)
    }

    pub fn program_counter(&self) -> (r: usize)
        ensures
            r == self.pc,
    {
        self.pc
    }

    pub fn contract(&self) -> (r: &Contract)
        ensures
            r == &self.contract,
    {
        &self.contract
    }

    pub fn gas(&self) -> (r: &Gas)
        ensures
            r == &self.gas,
    {
        &self.gas
    }

    pub fn stack(&self) -> (r: &Stack)
        ensures
            r == &self.stack,
    {
        &self.stack
    }

    /// Charge the gas block that starts at `pc`; `OutOfGas` ends the frame.
    pub fn add_next_gas_block(&mut self, pc: usize) -> (r: Return)
        requires
            old(self).wf_base(),
            pc < old(self).contract.bytecode.code_spec().len(),
        ensures
            final(self).wf_base() == old(self).wf_base(),
            only_gas_changed(*old(self), *final(self)),
            final(self).gas.limit_spec() == old(self).gas.limit_spec(),
            final(self).gas.refunded_spec() == old(self).gas.refunded_spec(),
            ({
                let cost = old(self).contract.bytecode.gas_blocks_spec()[pc as int];
                if cost <= old(self).gas.remaining_spec() {
                    r == Return::Continue && final(self).gas.remaining_spec() == old(self).gas.remaining_spec() - cost
                } else {
                    r == Return::OutOfGas && final(self).gas.remaining_spec() == old(self).gas.remaining_spec()
                }
            }),
    {
        let gas_block = self.contract.gas_block(pc);
        if !self.gas.record_cost(gas_block) {
            return Return::OutOfGas;
        }
        Return::Continue
    }

    /// The views of this frame as a machine state.
    pub open spec fn machine_view(&self) -> crate::machine::MachineState {
        (
            self.pc as nat,
            self.stack@,
            self.memory@,
            self.gas.remaining_spec() as nat,
            self.return_range_start as nat,
            self.return_range_end as nat,
        )
    }

    /// The dispatch loop: charge the entry gas block, then fetch, advance
    /// and execute opcodes until a handler reports anything but `Continue`.
    /// A step counter no real execution can exhaust bounds the loop.
    ///
    /// Beyond the frame invariants, the loop realizes the host-free
    /// machine: for an uninspected run, every outcome `machine_outcome`
    /// defines for this code from the entry state (within the counter's
    /// bound) is the outcome the frame reaches, state for state.
    pub fn run<H: Host, SPEC: Spec>(&mut self, host: &mut H, inspect: bool) -> (r: Return)
        requires
            old(self).wf(),
        ensures
            final(self).wf_loop(),
            final(self).gas.limit_spec() == old(self).gas.limit_spec(),
            final(self).gas.remaining_spec() <= old(self).gas.remaining_spec(),
            r != Return::Continue,
            old(self).contract.bytecode.first_gas_block_spec() > old(self).gas.remaining_spec()
                ==> r == Return::OutOfGas && *final(self) == *old(self),
            !inspect && old(self).contract.bytecode.first_gas_block_spec() <= old(self).gas.remaining_spec() ==> ({
                let env_spec_id = SPEC::spec_id_spec().id_spec();
                let code = old(self).contract.bytecode.code_spec();
                let jumpmap = old(self).contract.bytecode.jumpmap_spec();
                let blocks = old(self).contract.bytecode.gas_blocks_spec();
                let init: crate::machine::MachineState = (
                    old(self).pc as nat,
                    old(self).stack@,
                    old(self).memory@,
                    (old(self).gas.remaining_spec()
                        - old(self).contract.bytecode.first_gas_block_spec()) as nat,
                    old(self).return_range_start as nat,
                    old(self).return_range_end as nat,
                );
                forall|fuel: nat|
                    #![trigger crate::machine::machine_outcome(
                        env_spec_id,
                        code,
                        jumpmap,
                        blocks,
                        old(self).memory_limit as nat,
                        init,
                        fuel,
                    )]
                    fuel <= u64::MAX && crate::machine::machine_outcome(
                        env_spec_id,
                        code,
                        jumpmap,
                        blocks,
                        old(self).memory_limit as nat,
                        init,
                        fuel,
                    ) is Some ==> ({
                        let outcome = crate::machine::machine_outcome(
                            env_spec_id,
                            code,
                            jumpmap,
                            blocks,
                            old(self).memory_limit as nat,
                            init,
                            fuel,
                        )->0;
                        r == outcome.0 && crate::machine::matches_state(*final(self), outcome.1)
                    })
            }),
    {
        let spec = SPEC::spec_id();
        let spec_id = spec.id();
        let first = self.contract.first_gas_block();
        if !self.gas.record_cost(first) {
            return Return::OutOfGas;
        }
        let ghost pc0: int = old(self).pc as int;
        let ghost op0: u8 = old(self).contract.bytecode.code_spec()[pc0];
        let ghost code = old(self).contract.bytecode.code_spec();
        let ghost jumpmap = old(self).contract.bytecode.jumpmap_spec();
        let ghost blocks = old(self).contract.bytecode.gas_blocks_spec();
        let ghost mlimit: nat = old(self).memory_limit as nat;
        let ghost init: crate::machine::MachineState = self.machine_view();
        let mut ret = Return::Continue;
        let mut steps: u64 = 0;
        while matches!(ret, Return::Continue)
            invariant
                self.wf_loop(),
                matches!(ret, Return::Continue) ==> self.wf(),
                self.gas.limit_spec() == old(self).gas.limit_spec(),
                self.gas.remaining_spec() <= old(self).gas.remaining_spec(),
                pc0 == old(self).pc,
                op0 == old(self).contract.bytecode.code_spec()[pc0],
                old(self).contract.bytecode.first_gas_block_spec() <= old(self).gas.remaining_spec(),
                code == old(self).contract.bytecode.code_spec(),
                jumpmap == old(self).contract.bytecode.jumpmap_spec(),
                blocks == old(self).contract.bytecode.gas_blocks_spec(),
                mlimit == old(self).memory_limit as nat,
                init == (
                    old(self).pc as nat,
                    old(self).stack@,
                    old(self).memory@,
                    (old(self).gas.remaining_spec()
                        - old(self).contract.bytecode.first_gas_block_spec()) as nat,
                    old(self).return_range_start as nat,
                    old(self).return_range_end as nat,
                ),
                spec_id == SPEC::spec_id_spec().id_spec(),
                !inspect ==> self.contract == old(self).contract && self.memory_limit == old(self).memory_limit && self.is_static == old(self).is_static,
                !inspect ==> forall|fuel: nat|
                    #![trigger crate::machine::machine_outcome(spec_id, code, jumpmap, blocks, mlimit, init, fuel)]
                    fuel <= u64::MAX && crate::machine::machine_outcome(
                        spec_id,
                        code,
                        jumpmap,
                        blocks,
                        mlimit,
                        init,
                        fuel,
                    ) is Some ==> ({
                        let outcome = crate::machine::machine_outcome(
                            spec_id,
                            code,
                            jumpmap,
                            blocks,
                            mlimit,
                            init,
                            fuel,
                        )->0;
                        &&& (matches!(ret, Return::Continue) ==> fuel >= steps
                            && crate::machine::machine_outcome(
                            spec_id,
                            code,
                            jumpmap,
                            blocks,
                            mlimit,
                            self.machine_view(),
                            (fuel - steps) as nat,
                        ) == Some(outcome))
                        &&& (!matches!(ret, Return::Continue) ==> ret == outcome.0
                            && crate::machine::matches_state(*self, outcome.1))
                    }),
                !inspect && steps == 0 ==> matches!(ret, Return::Continue) && self.pc == old(self).pc && self.stack@ == old(self).stack@ && self.memory@ == old(self).memory@
                    && self.return_data_buffer@ == old(self).return_data_buffer@
                    && self.gas.remaining_spec() == old(self).gas.remaining_spec() - old(self).contract.bytecode.first_gas_block_spec(),
                !inspect && steps >= 1 && matches!(ret, Return::Continue) ==> op0
                    != crate::instructions::opcode::STOP && op0
                    != crate::instructions::opcode::INVALID,
                !inspect && !matches!(ret, Return::Continue) && op0
                    == crate::instructions::opcode::STOP ==> ret == Return::Stop && self.pc == old(self).pc + 1 && self.stack@ == old(self).stack@ && self.memory@ == old(self).memory@
                    && self.return_data_buffer@ == old(self).return_data_buffer@
                    && self.gas.remaining_spec() == old(self).gas.remaining_spec() - old(self).contract.bytecode.first_gas_block_spec(),
                !inspect && !matches!(ret, Return::Continue) && op0
                    == crate::instructions::opcode::INVALID ==> ret == Return::InvalidOpcode
                    && self.pc == old(self).pc + 1 && self.stack@ == old(self).stack@
                    && self.memory@ == old(self).memory@ && self.return_data_buffer@ == old(self).return_data_buffer@ && self.gas.remaining_spec() == old(self).gas.remaining_spec()
                    - old(self).contract.bytecode.first_gas_block_spec(),
            decreases u64::MAX - steps,
        {
            if steps == u64::MAX {
                proof {
                    if !inspect {
                        assert forall|fuel: nat|
                            fuel <= u64::MAX && crate::machine::machine_outcome(
                                spec_id,
                                code,
                                jumpmap,
                                blocks,
                                mlimit,
                                init,
                                fuel,
                            ) is Some implies false by {
                            assert(fuel >= steps);
                            assert(crate::machine::machine_outcome(
                                spec_id,
                                code,
                                jumpmap,
                                blocks,
                                mlimit,
                                self.machine_view(),
                                0,
                            ) is Some);
                        }
                    }
                }
                return Return::OutOfGas;
            }
            let ghost prev = *self;
            let ghost steps_prev = steps;
            steps = steps + 1;
            if inspect {
                ret = host.step(self);
                if !matches!(ret, Return::Continue) {
                    return ret;
                }
            }
            let op = self.current_opcode();
            proof {
                self.contract.bytecode.lemma_wf();
            }
            self.pc = self.pc + 1;
            ret = crate::instructions::dispatch::eval(op, self, host, spec_id);
            proof {
                if !inspect {
                    let stepped = crate::machine::step_pure(
                        spec_id,
                        code,
                        jumpmap,
                        blocks,
                        mlimit,
                        prev.machine_view(),
                    );
                    assert forall|fuel: nat|
                        fuel <= u64::MAX && crate::machine::machine_outcome(
                            spec_id,
                            code,
                            jumpmap,
                            blocks,
                            mlimit,
                            init,
                            fuel,
                        ) is Some implies ({
                        let outcome = crate::machine::machine_outcome(
                            spec_id,
                            code,
                            jumpmap,
                            blocks,
                            mlimit,
                            init,
                            fuel,
                        )->0;
                        &&& (matches!(ret, Return::Continue) ==> fuel >= steps
                            && crate::machine::machine_outcome(
                            spec_id,
                            code,
                            jumpmap,
                            blocks,
                            mlimit,
                            self.machine_view(),
                            (fuel - steps) as nat,
                        ) == Some(outcome))
                        &&& (!matches!(ret, Return::Continue) ==> ret == outcome.0
                            && crate::machine::matches_state(*self, outcome.1))
                    }) by {
                        let outcome = crate::machine::machine_outcome(
                            spec_id,
                            code,
                            jumpmap,
                            blocks,
                            mlimit,
                            init,
                            fuel,
                        )->0;
                        assert(fuel >= steps_prev);
                        let fprev = (fuel - steps_prev) as nat;
                        assert(crate::machine::machine_outcome(
                            spec_id,
                            code,
                            jumpmap,
                            blocks,
                            mlimit,
                            prev.machine_view(),
                            fprev,
                        ) == Some(outcome));
                        assert(fprev > 0);
                        if stepped is Some {
                            let out = stepped->0;
                            assert(ret == out.0 && crate::machine::matches_state(*self, out.1));
                            if out.0 == Return::Continue {
                                assert(crate::machine::machine_outcome(
                                    spec_id,
                                    code,
                                    jumpmap,
                                    blocks,
                                    mlimit,
                                    out.1,
                                    (fprev - 1) as nat,
                                ) == Some(outcome));
                                assert(self.machine_view() == out.1);
                            } else {
                                assert(outcome == out);
                            }
                        }
                    }
                }
            }
        }
        ret
    }

    /// The frame's returned bytes: the designated memory slice, or nothing.
    pub fn return_value(&self) -> (r: Vec<u8>)
        requires
            self.wf_base(),
        ensures
            self.return_range_start == usize::MAX ==> r@ == Seq::<u8>::empty(),
            self.return_range_start != usize::MAX ==> r@ == self.memory@.subrange(
                self.return_range_start as int,
                self.return_range_end as int,
            ),
    {
        if self.return_range_start == usize::MAX {
            Vec::new()
        } else {
            let s = self.memory.get_slice(
                self.return_range_start,
                self.return_range_end - self.return_range_start,
            );
            vstd::slice::slice_to_vec(s)
        }
    }

    /// Grow memory to cover `[offset, offset + len)`, charging the expansion
    /// gas; past the per-frame cap this is `InvalidMemoryRange`, and an
    /// unaffordable expansion is `OutOfGas`. Without effect when the range
    /// is already covered.
    pub fn resize_memory(&mut self, offset: usize, len: usize) -> (r: Return)
        requires
            old(self).wf_base(),
        ensures
            final(self).wf_base(),
            only_memory_and_gas_changed(*old(self), *final(self)),
            final(self).gas.limit_spec() == old(self).gas.limit_spec(),
            final(self).gas.refunded_spec() == old(self).gas.refunded_spec(),
            final(self).gas.remaining_spec() <= old(self).gas.remaining_spec(),
            final(self).memory@.len() >= old(self).memory@.len(),
            offset + len <= old(self).memory@.len() ==> r == Return::Continue && final(self).memory@
                == old(self).memory@ && final(self).gas == old(self).gas,
            offset + len > old(self).memory@.len() ==> ({
                let need = words_of((offset + len) as nat) * 32;
                let delta = memory_gas_spec(words_of((offset + len) as nat)) - memory_gas_spec(
                    old(self).memory@.len() / 32,
                );
                if need > old(self).memory_limit {
                    r == Return::InvalidMemoryRange && final(self).memory@ == old(self).memory@
                        && final(self).gas == old(self).gas
                } else if delta <= old(self).gas.remaining_spec() {
                    r == Return::Continue && final(self).memory@ == old(self).memory@
                        + Seq::<u8>::new((need - old(self).memory@.len()) as nat, |i: int| 0u8)
                        && final(self).gas.remaining_spec() == old(self).gas.remaining_spec()
                        - delta
                } else {
                    r == Return::OutOfGas && final(self).memory@ == old(self).memory@ && final(self).gas == old(self).gas
                }
            }),
            r == Return::Continue ==> offset + len <= final(self).memory@.len(),
            r == Return::Continue <==> can_grow_memory(*old(self), offset as nat, len as nat),
            r != Return::Continue ==> r == grow_fail_code(
                old(self).memory@.len() as nat,
                old(self).memory_limit as nat,
                offset as nat,
                len as nat,
            ),
            r == Return::Continue ==> final(self).memory@ == zero_extended(
                old(self).memory@,
                final(self).memory@.len() as nat,
            ) && final(self).gas.remaining_spec() == old(self).gas.remaining_spec()
                - mem_expansion_cost(old(self).memory@.len() as nat, final(self).memory@.len() as nat),
            r != Return::Continue ==> final(self).memory@ == old(self).memory@ && final(self).gas
                == old(self).gas,
    {
        let cur_len = self.memory.effective_len();
        let target: u128 = offset as u128 + len as u128;
        if target <= cur_len as u128 {
            return Return::Continue;
        }
        let words128: u128 = (target + 31) / 32;
        let need128: u128 = words128 * 32;
        proof {
            assert(words128 == words_of((offset + len) as nat));
            assert(need128 >= target) by (nonlinear_arith)
                requires
                    words128 == (target + 31) / 32,
                    need128 == words128 * 32,
                    target >= 0,
            ;
            assert(target <= usize::MAX as u128 + usize::MAX as u128);
            vstd::arithmetic::div_mod::lemma_div_is_ordered(
                (target + 31) as int,
                (usize::MAX as u128 + usize::MAX as u128 + 31) as int,
                32,
            );
            assert(words128 <= u64::MAX as u128);
        }
        if need128 > self.memory_limit as u128 {
            return Return::InvalidMemoryRange;
        }
        let need: usize = need128 as usize;
        let new_words: u64 = words128 as u64;
        let old_words: u64 = (cur_len / 32) as u64;
        let g_new = memory_gas(new_words);
        let g_old = memory_gas(old_words);
        proof {
            lemma_memory_gas_mono(old_words as nat, new_words as nat);
        }
        let delta = g_new - g_old;
        if !self.gas.record_cost(delta) {
            return Return::OutOfGas;
        }
        self.memory.resize_to(need);
        Return::Continue
    }
}

/// A byte string extended with zeros to `len` bytes.
pub open spec fn zero_extended(m: Seq<u8>, len: nat) -> Seq<u8> {
    Seq::new(
        len,
        |j: int|
            if j < m.len() {
                m[j]
            } else {
                0u8
            },
    )
}

/// What growing word-aligned memory from `old_len` to `new_len` bytes
/// costs.
pub open spec fn mem_expansion_cost(old_len: nat, new_len: nat) -> int {
    memory_gas_spec(new_len / 32) - memory_gas_spec(old_len / 32)
}

/// Whether growing memory over `[offset, offset + len)` can succeed given
/// the memory length, the cap and the gas at hand: already covered, or
/// within the cap and affordable.
pub open spec fn grow_ok(mem_len: nat, mem_limit: nat, remaining: nat, offset: nat, len: nat) -> bool {
    offset + len <= mem_len || ({
        let need = words_of(offset + len) * 32;
        let delta = memory_gas_spec(words_of(offset + len)) - memory_gas_spec(mem_len / 32);
        need <= mem_limit && delta <= remaining
    })
}

/// Which error a failed grow reports: past the cap it is the range error,
/// else the gas ran out.
pub open spec fn grow_fail_code(mem_len: nat, mem_limit: nat, offset: nat, len: nat) -> Return {
    if words_of(offset + len) * 32 > mem_limit {
        Return::InvalidMemoryRange
    } else {
        Return::OutOfGas
    }
}

/// `grow_ok` over a frame with `remaining` gas at hand.
pub open spec fn can_grow_memory_with(pre: Interpreter, offset: nat, len: nat, remaining: nat) -> bool {
    grow_ok(pre.memory@.len() as nat, pre.memory_limit as nat, remaining, offset, len)
}

/// Whether growing memory over `[offset, offset + len)` can succeed in
/// this frame.
pub open spec fn can_grow_memory(pre: Interpreter, offset: nat, len: nat) -> bool {
    can_grow_memory_with(pre, offset, len, pre.gas.remaining_spec() as nat)
}

/// The memory length after a grow over `[offset, offset + len)` succeeded
/// — unchanged when the range was covered or empty, else rounded up to
/// whole words. An empty range asked for no growth here.
pub open spec fn grown_len(len: nat, offset: nat, l: nat) -> nat {
    if l == 0 || offset + l <= len {
        len
    } else {
        words_of(offset + l) * 32
    }
}

/// What no opcode handler ever changes.
pub open spec fn frame_const(pre: Interpreter, post: Interpreter) -> bool {
    &&& post.contract == pre.contract
    &&& post.is_static == pre.is_static
    &&& post.memory_limit == pre.memory_limit
}

/// A handler that touched the stack alone.
pub open spec fn only_stack_changed(pre: Interpreter, post: Interpreter) -> bool {
    &&& frame_const(pre, post)
    &&& post.pc == pre.pc
    &&& post.memory@ == pre.memory@
    &&& post.gas == pre.gas
    &&& post.return_data_buffer@ == pre.return_data_buffer@
    &&& post.return_range_start == pre.return_range_start
    &&& post.return_range_end == pre.return_range_end
}

/// A handler that touched the stack and gas alone.
pub open spec fn only_stack_and_gas_changed(pre: Interpreter, post: Interpreter) -> bool {
    &&& frame_const(pre, post)
    &&& post.pc == pre.pc
    &&& post.memory@ == pre.memory@
    &&& post.return_data_buffer@ == pre.return_data_buffer@
    &&& post.return_range_start == pre.return_range_start
    &&& post.return_range_end == pre.return_range_end
}

/// A handler that touched the stack, memory and gas alone.
pub open spec fn only_stack_memory_gas_changed(pre: Interpreter, post: Interpreter) -> bool {
    &&& frame_const(pre, post)
    &&& post.pc == pre.pc
    &&& post.return_data_buffer@ == pre.return_data_buffer@
    &&& post.return_range_start == pre.return_range_start
    &&& post.return_range_end == pre.return_range_end
}

/// A handler that touched memory and gas alone.
pub open spec fn only_memory_and_gas_changed(pre: Interpreter, post: Interpreter) -> bool {
    &&& frame_const(pre, post)
    &&& post.pc == pre.pc
    &&& post.stack@ == pre.stack@
    &&& post.return_data_buffer@ == pre.return_data_buffer@
    &&& post.return_range_start == pre.return_range_start
    &&& post.return_range_end == pre.return_range_end
}

/// Only the gas counters moved.
pub open spec fn only_gas_changed(pre: Interpreter, post: Interpreter) -> bool {
    &&& frame_const(pre, post)
    &&& post.pc == pre.pc
    &&& post.stack@ == pre.stack@
    &&& post.memory@ == pre.memory@
    &&& post.return_data_buffer@ == pre.return_data_buffer@
    &&& post.return_range_start == pre.return_range_start
    &&& post.return_range_end == pre.return_range_end
}

} // verus!
