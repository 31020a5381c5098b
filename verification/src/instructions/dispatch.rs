//! Opcode dispatch: one switch from opcode byte to handler, monomorphized
//! over nothing but carrying the active fork, with the static-frame and
//! fork-availability gates applied before any handler runs.

use vstd::prelude::*;

use crate::host::Host;
use crate::instructions::{arithmetic, bitwise, control, host as host_ops, host_env, memory,
    opcode, stack, system};
use crate::interpreter::{frame_const, Interpreter};
use crate::ret::Return;
use crate::specification::SpecId;

verus! {

/// The bytes the instruction set assigns at all — under whatever fork gate;
/// every other byte is an invalid opcode (`0xFE` is the designated one).
pub open spec fn is_defined_opcode(op: u8) -> bool {
    ||| op <= opcode::SIGNEXTEND
    ||| (opcode::LT <= op <= opcode::SAR)
    ||| op == opcode::SHA3
    ||| (opcode::ADDRESS <= op <= opcode::BASEFEE)
    ||| (opcode::POP <= op <= opcode::JUMPDEST)
    ||| (opcode::PUSH1 <= op <= opcode::SWAP16)
    ||| (opcode::LOG0 <= op <= opcode::LOG4)
    ||| op == opcode::CREATE
    ||| op == opcode::CALL
    ||| op == opcode::CALLCODE
    ||| op == opcode::RETURN
    ||| op == opcode::DELEGATECALL
    ||| op == opcode::CREATE2
    ||| op == opcode::STATICCALL
    ||| op == opcode::REVERT
    ||| op == opcode::SELFDESTRUCT
}

/// The opcodes a static frame rejects outright.
pub open spec fn is_static_forbidden(op: u8) -> bool {
    (opcode::LOG0 <= op <= opcode::LOG4) || op == opcode::SSTORE || op == opcode::CREATE || op
        == opcode::CREATE2 || op == opcode::SELFDESTRUCT
}

/// `STOP`: end the frame successfully.
pub fn return_stop(_interp: &mut Interpreter) -> (r: Return)
    ensures
        r == Return::Stop,
        *final(_interp) == *old(_interp),
{
    Return::Stop
}

/// An opcode outside the instruction set.
pub fn invalid_opcode(_interp: &mut Interpreter) -> (r: Return)
    ensures
        r == Return::InvalidOpcode,
        *final(_interp) == *old(_interp),
{
    Return::InvalidOpcode
}

/// An opcode the active fork has not yet introduced.
pub fn not_activated(_interp: &mut Interpreter) -> (r: Return)
    ensures
        r == Return::NotActivated,
        *final(_interp) == *old(_interp),
{
    Return::NotActivated
}

/// A state-changing opcode inside a static frame.
pub fn state_change_during_static(_interp: &mut Interpreter) -> (r: Return)
    ensures
        r == Return::StateChangeDuringStaticCall,
        *final(_interp) == *old(_interp),
{
    Return::StateChangeDuringStaticCall
}

/// Execute one opcode: the 256-way dispatch of the interpreter loop. The
/// byte has already been fetched and the counter moved past it.
#[verifier::rlimit(100)]
pub fn eval<H: Host>(op: u8, interp: &mut Interpreter, host: &mut H, spec_id: u8) -> (r: Return)
    requires
        old(interp).wf_base(),
        1 <= old(interp).pc <= old(interp).contract.bytecode.code_spec().len(),
        op == old(interp).contract.bytecode.code_spec()[old(interp).pc - 1],
        op != 0 ==> old(interp).pc + 32 < old(interp).contract.bytecode.code_spec().len(),
    ensures
        final(interp).wf_base(),
        frame_const(*old(interp), *final(interp)),
        final(interp).pc <= final(interp).contract.bytecode.code_spec().len(),
        final(interp).gas.limit_spec() == old(interp).gas.limit_spec(),
        r == Return::Continue ==> final(interp).wf(),
        final(interp).gas.remaining_spec() <= old(interp).gas.remaining_spec(),
        old(interp).is_static && is_static_forbidden(op) ==> r
            == Return::StateChangeDuringStaticCall && *final(interp) == *old(interp),
        op == opcode::STOP ==> r == Return::Stop && *final(interp) == *old(interp),
        (opcode::SHL <= op <= opcode::SAR) && !SpecId::CONSTANTINOPLE.enabled_in_spec(spec_id) ==> r
            == Return::NotActivated && *final(interp) == *old(interp),
        op == opcode::EXTCODEHASH && !SpecId::CONSTANTINOPLE.enabled_in_spec(spec_id) ==> r
            == Return::NotActivated && *final(interp) == *old(interp),
        (op == opcode::RETURNDATASIZE || op == opcode::RETURNDATACOPY || op == opcode::REVERT)
            && !SpecId::BYZANTIUM.enabled_in_spec(spec_id) ==> r == Return::NotActivated && *final(interp) == *old(interp),
        op == opcode::CHAINID && !SpecId::ISTANBUL.enabled_in_spec(spec_id) ==> r
            == Return::NotActivated && *final(interp) == *old(interp),
        op == opcode::SELFBALANCE && !SpecId::ISTANBUL.enabled_in_spec(spec_id) ==> r
            == Return::NotActivated && *final(interp) == *old(interp),
        op == opcode::BASEFEE && !SpecId::LONDON.enabled_in_spec(spec_id) ==> r
            == Return::NotActivated && *final(interp) == *old(interp),
        op == opcode::DELEGATECALL && !SpecId::HOMESTEAD.enabled_in_spec(spec_id) ==> r
            == Return::NotActivated && *final(interp) == *old(interp),
        !old(interp).is_static && op == opcode::STATICCALL && !SpecId::BYZANTIUM.enabled_in_spec(
            spec_id,
        ) ==> r == Return::NotActivated && *final(interp) == *old(interp),
        !old(interp).is_static && op == opcode::CREATE2 && !SpecId::PETERSBURG.enabled_in_spec(
            spec_id,
        ) ==> r == Return::NotActivated && *final(interp) == *old(interp),
        op == opcode::INVALID ==> r == Return::InvalidOpcode && *final(interp) == *old(interp),
        !is_defined_opcode(op) ==> r == Return::InvalidOpcode && *final(interp) == *old(interp),
        old(interp).is_static && op == opcode::CALL && old(interp).stack@.len() >= 7 && old(interp).stack@[old(interp).stack@.len() - 3] != 0 ==> r
            == Return::CallNotAllowedInsideStatic && final(interp).memory@ == old(interp).memory@
            && final(interp).gas == old(interp).gas && final(interp).stack@ == old(interp).stack@.take(old(interp).stack@.len() - 3),
        ({
            let st: crate::machine::MachineState = (
                (old(interp).pc - 1) as nat,
                old(interp).stack@,
                old(interp).memory@,
                old(interp).gas.remaining_spec() as nat,
                old(interp).return_range_start as nat,
                old(interp).return_range_end as nat,
            );
            let stepped = crate::machine::step_pure(
                spec_id,
                old(interp).contract.bytecode.code_spec(),
                old(interp).contract.bytecode.jumpmap_spec(),
                old(interp).contract.bytecode.gas_blocks_spec(),
                old(interp).memory_limit as nat,
                st,
            );
            stepped is Some ==> ({
                let out = stepped->0;
                r == out.0 && crate::machine::matches_state(*final(interp), out.1)
            })
        }),
{
    proof {
        old(interp).contract.bytecode.lemma_wf();
        old(interp).stack.lemma_view_bounded();
    }
    if interp.is_static {
        if (opcode::LOG0 <= op && op <= opcode::LOG4) || op == opcode::SSTORE || op
            == opcode::CREATE || op == opcode::CREATE2 || op == opcode::SELFDESTRUCT {
            return state_change_during_static(interp);
        }
    }
    let r = if op == opcode::STOP {
        return_stop(interp)
    } else if op == opcode::ADD {
        arithmetic::overflowing_add(interp)
    } else if op == opcode::MUL {
        arithmetic::overflowing_mul(interp)
    } else if op == opcode::SUB {
        arithmetic::overflowing_sub(interp)
    } else if op == opcode::DIV {
        arithmetic::div(interp)
    } else if op == opcode::SDIV {
        arithmetic::sdiv(interp)
    } else if op == opcode::MOD {
        arithmetic::rem(interp)
    } else if op == opcode::SMOD {
        arithmetic::smod(interp)
    } else if op == opcode::ADDMOD {
        arithmetic::addmod(interp)
    } else if op == opcode::MULMOD {
        arithmetic::mulmod(interp)
    } else if op == opcode::EXP {
        arithmetic::eval_exp(interp, spec_id)
    } else if op == opcode::SIGNEXTEND {
        arithmetic::signextend(interp)
    } else if op == opcode::LT {
        arithmetic::lt(interp)
    } else if op == opcode::GT {
        arithmetic::gt(interp)
    } else if op == opcode::EQ {
        arithmetic::eq(interp)
    } else if op == opcode::SLT {
        bitwise::slt(interp)
    } else if op == opcode::SGT {
        bitwise::sgt(interp)
    } else if op == opcode::ISZERO {
        bitwise::iszero(interp)
    } else if op == opcode::AND {
        bitwise::bitand(interp)
    } else if op == opcode::OR {
        bitwise::bitor(interp)
    } else if op == opcode::XOR {
        bitwise::bitxor(interp)
    } else if op == opcode::NOT {
        bitwise::not(interp)
    } else if op == opcode::BYTE {
        bitwise::byte(interp)
    } else if op == opcode::SHL || op == opcode::SHR || op == opcode::SAR {
        if !SpecId::CONSTANTINOPLE.enabled_in(spec_id) {
            not_activated(interp)
        } else if op == opcode::SHL {
            bitwise::shl(interp)
        } else if op == opcode::SHR {
            bitwise::shr(interp)
        } else {
            bitwise::sar(interp)
        }
    } else if op == opcode::SHA3 {
        system::sha3(interp)
    } else if op == opcode::ADDRESS {
        system::address(interp)
    } else if op == opcode::BALANCE {
        host_ops::balance(interp, host, spec_id)
    } else if op == opcode::ORIGIN {
        host_env::origin(interp, host)
    } else if op == opcode::CALLER {
        system::caller(interp)
    } else if op == opcode::CALLVALUE {
        system::callvalue(interp)
    } else if op == opcode::CALLDATALOAD {
        system::calldataload(interp)
    } else if op == opcode::CALLDATASIZE {
        system::calldatasize(interp)
    } else if op == opcode::CALLDATACOPY {
        system::calldatacopy(interp)
    } else if op == opcode::CODESIZE {
        system::codesize(interp)
    } else if op == opcode::CODECOPY {
        system::codecopy(interp)
    } else if op == opcode::GASPRICE {
        host_env::gasprice(interp, host)
    } else if op == opcode::EXTCODESIZE {
        host_ops::extcodesize(interp, host, spec_id)
    } else if op == opcode::EXTCODECOPY {
        host_ops::extcodecopy(interp, host, spec_id)
    } else if op == opcode::RETURNDATASIZE {
        if !SpecId::BYZANTIUM.enabled_in(spec_id) {
            not_activated(interp)
        } else {
            system::returndatasize(interp)
        }
    } else if op == opcode::RETURNDATACOPY {
        if !SpecId::BYZANTIUM.enabled_in(spec_id) {
            not_activated(interp)
        } else {
            system::returndatacopy(interp)
        }
    } else if op == opcode::EXTCODEHASH {
        if !SpecId::CONSTANTINOPLE.enabled_in(spec_id) {
            not_activated(interp)
        } else {
            host_ops::extcodehash(interp, host, spec_id)
        }
    } else if op == opcode::BLOCKHASH {
        host_ops::blockhash(interp, host)
    } else if op == opcode::COINBASE {
        host_env::coinbase(interp, host)
    } else if op == opcode::TIMESTAMP {
        host_env::timestamp(interp, host)
    } else if op == opcode::NUMBER {
        host_env::number(interp, host)
    } else if op == opcode::DIFFICULTY {
        host_env::difficulty(interp, host)
    } else if op == opcode::GASLIMIT {
        host_env::gaslimit(interp, host)
    } else if op == opcode::CHAINID {
        if !SpecId::ISTANBUL.enabled_in(spec_id) {
            not_activated(interp)
        } else {
            host_env::chainid(interp, host)
        }
    } else if op == opcode::SELFBALANCE {
        if !SpecId::ISTANBUL.enabled_in(spec_id) {
            not_activated(interp)
        } else {
            host_ops::selfbalance(interp, host)
        }
    } else if op == opcode::BASEFEE {
        if !SpecId::LONDON.enabled_in(spec_id) {
            not_activated(interp)
        } else {
            host_env::basefee(interp, host)
        }
    } else if op == opcode::POP {
        stack::pop(interp)
    } else if op == opcode::MLOAD {
        memory::mload(interp)
    } else if op == opcode::MSTORE {
        memory::mstore(interp)
    } else if op == opcode::MSTORE8 {
        memory::mstore8(interp)
    } else if op == opcode::SLOAD {
        host_ops::sload(interp, host, spec_id)
    } else if op == opcode::SSTORE {
        host_ops::sstore(interp, host, spec_id)
    } else if op == opcode::JUMP {
        control::jump(interp)
    } else if op == opcode::JUMPI {
        control::jumpi(interp)
    } else if op == opcode::PC {
        control::pc(interp)
    } else if op == opcode::MSIZE {
        memory::msize(interp)
    } else if op == opcode::GAS {
        system::gas(interp)
    } else if op == opcode::JUMPDEST {
        control::jumpdest(interp)
    } else if opcode::PUSH1 <= op && op <= opcode::PUSH32 {
        stack::push(interp, (op - opcode::PUSH1) as usize + 1)
    } else if opcode::DUP1 <= op && op <= opcode::DUP16 {
        stack::dup(interp, (op - opcode::DUP1) as usize + 1)
    } else if opcode::SWAP1 <= op && op <= opcode::SWAP16 {
        stack::swap(interp, (op - opcode::SWAP1) as usize + 1)
    } else if opcode::LOG0 <= op && op <= opcode::LOG4 {
        host_ops::log(interp, host, op - opcode::LOG0)
    } else if op == opcode::CREATE {
        host_ops::create(interp, false, host, spec_id)
    } else if op == opcode::CALL {
        host_ops::call(interp, host, spec_id)
    } else if op == opcode::CALLCODE {
        host_ops::callcode(interp, host, spec_id)
    } else if op == opcode::RETURN {
        control::ret(interp)
    } else if op == opcode::DELEGATECALL {
        host_ops::delegatecall(interp, host, spec_id)
    } else if op == opcode::CREATE2 {
        host_ops::create(interp, true, host, spec_id)
    } else if op == opcode::STATICCALL {
        host_ops::staticcall(interp, host, spec_id)
    } else if op == opcode::REVERT {
        if !SpecId::BYZANTIUM.enabled_in(spec_id) {
            not_activated(interp)
        } else {
            control::revert(interp)
        }
    } else if op == opcode::SELFDESTRUCT {
        host_ops::selfdestruct(interp, host, spec_id)
    } else {
        invalid_opcode(interp)
    };
    proof {
        let st: crate::machine::MachineState = (
            (old(interp).pc - 1) as nat,
            old(interp).stack@,
            old(interp).memory@,
            old(interp).gas.remaining_spec() as nat,
            old(interp).return_range_start as nat,
            old(interp).return_range_end as nat,
        );
        let stepped = crate::machine::step_pure(
            spec_id,
            old(interp).contract.bytecode.code_spec(),
            old(interp).contract.bytecode.jumpmap_spec(),
            old(interp).contract.bytecode.gas_blocks_spec(),
            old(interp).memory_limit as nat,
            st,
        );
        if op == opcode::MSTORE && old(interp).stack@.len() >= 2 && r == Return::Continue {
            crate::machine::lemma_mstore_window(
                interp.memory@,
                old(interp).memory@,
                old(interp).stack@.last(),
                old(interp).stack@[old(interp).stack@.len() - 2],
            );
        }
        if stepped is Some {
            let out = stepped->0;
            if op == opcode::STOP || !is_defined_opcode(op) {
                assert(r == out.0 && crate::machine::matches_state(*interp, out.1));
            } else if crate::machine::is_binop(op) || op == opcode::SHL || op == opcode::SHR || op
                == opcode::SAR {
                assert(r == out.0 && crate::machine::matches_state(*interp, out.1));
            } else if op == opcode::EXP {
                assert(r == out.0 && crate::machine::matches_state(*interp, out.1));
            } else if op == opcode::ADDMOD || op == opcode::MULMOD || op == opcode::ISZERO || op
                == opcode::NOT || op == opcode::POP {
                assert(r == out.0 && crate::machine::matches_state(*interp, out.1));
            } else if op == opcode::SHA3 {
                let pre = old(interp).stack@;
                if pre.len() >= 2 && r == Return::Continue {
                    let from = pre.last();
                    let len = pre[pre.len() - 2];
                    if len != 0 {
                        assert(interp.memory@ == crate::interpreter::zero_extended(
                            old(interp).memory@,
                            crate::interpreter::grown_len(old(interp).memory@.len() as nat, from, len),
                        ));
                    }
                }
                if pre.len() >= 2 && !(r == Return::Continue) {
                    let from = pre.last();
                    let len = pre[pre.len() - 2];
                    if len <= usize::MAX && crate::gas::sha3_cost_spec(len) is Some
                        && crate::gas::sha3_cost_spec(len)->0 <= old(interp).gas.remaining_spec() {
                        assert(len > 0);
                        if from <= usize::MAX - len {
                            assert(!crate::interpreter::can_grow_memory_with(
                                *old(interp),
                                from,
                                len,
                                (old(interp).gas.remaining_spec()
                                    - crate::gas::sha3_cost_spec(len)->0) as nat,
                            ));
                        }
                        assert(interp.gas.remaining_spec() == crate::machine::st_rem(out.1));
                    }
                }
                assert(r == out.0 && crate::machine::matches_state(*interp, out.1));
            } else if op == opcode::MLOAD || op == opcode::MSTORE || op == opcode::MSTORE8 {
                let pre = old(interp).stack@;
                if r == Return::Continue {
                    let idx = pre.last();
                    let wlen: nat = if op == opcode::MSTORE8 {
                        1
                    } else {
                        32
                    };
                    let newlen = crate::interpreter::grown_len(
                        old(interp).memory@.len() as nat,
                        idx,
                        wlen,
                    );
                    let grown = crate::interpreter::zero_extended(old(interp).memory@, newlen);
                    if op == opcode::MLOAD {
                        assert(interp.memory@ == grown);
                    } else if op == opcode::MSTORE {
                        assert(interp.memory@ =~= Seq::new(
                            newlen,
                            |j: int|
                                if idx <= j < idx + 32 {
                                    crate::u256::be_bytes_of(
                                        pre[pre.len() - 2] % crate::u256::w256(),
                                        32,
                                    )[j - idx]
                                } else {
                                    grown[j]
                                },
                        ));
                    } else {
                        assert(interp.memory@ =~= grown.update(
                            idx as int,
                            (pre[pre.len() - 2] % 256) as u8,
                        ));
                    }
                }
                assert(r == out.0 && crate::machine::matches_state(*interp, out.1));
            } else if op == opcode::MSIZE || op == opcode::PC || op == opcode::JUMPDEST {
                assert(r == out.0 && crate::machine::matches_state(*interp, out.1));
            } else if op == opcode::JUMP || op == opcode::JUMPI {
                assert(r == out.0 && crate::machine::matches_state(*interp, out.1));
            } else if opcode::PUSH1 <= op <= opcode::PUSH32 {
                assert(r == out.0 && crate::machine::matches_state(*interp, out.1));
            } else if opcode::DUP1 <= op <= opcode::DUP16 {
                assert(r == out.0 && crate::machine::matches_state(*interp, out.1));
            } else if opcode::SWAP1 <= op <= opcode::SWAP16 {
                assert(r == out.0 && crate::machine::matches_state(*interp, out.1));
            } else if op == opcode::RETURN || op == opcode::REVERT {
                let pre = old(interp).stack@;
                if pre.len() >= 2 && (r == Return::Return || r == Return::Revert) {
                    let start = pre.last();
                    let len = pre[pre.len() - 2];
                    if len != 0 {
                        assert(interp.memory@ == crate::interpreter::zero_extended(
                            old(interp).memory@,
                            crate::interpreter::grown_len(
                                old(interp).memory@.len() as nat,
                                start,
                                len,
                            ),
                        ));
                    }
                }
                assert(r == out.0 && crate::machine::matches_state(*interp, out.1));
            }
        }
    }
    r
}

} // verus!
