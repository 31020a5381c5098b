//! Opcodes that consult or change outside state through the `Host`: account
//! queries, storage, logs, self-destruction, nested calls and creations.
//!
//! A host's answers are its own; each contract here pins the frame's side of
//! the exchange — which words leave the stack, what gas is charged for which
//! reported access class, and how returned gas flows back — for every
//! possible answer.

use vstd::prelude::*;

use primitive_types::U256;

use crate::gas::{
    self, balance_cost, balance_cost_spec, call_cost, create2_cost, extcodecopy_cost,
    extcodecopy_cost_spec, forwarded_gas, log_cost, log_cost_spec, selfdestruct_cost, sload_cost,
    sload_cost_spec, sstore_cost, sstore_refund, CALL_STIPEND, COLD_ACCOUNT_ACCESS_COST,
    WARM_STORAGE_READ_COST,
};
use crate::host::Host;
use crate::interpreter::{
    can_grow_memory_with, frame_const, mem_expansion_cost, only_stack_and_gas_changed,
    zero_extended, Interpreter,
};
use crate::ret::Return;
use crate::specification::SpecId;
use crate::types::{Address, CallContext, CallInputs, CallScheme, CreateInputs, CreateScheme,
    Transfer};
use crate::u256::{
    u256_as_u64_saturated, u256_as_usize, u256_is_zero, u256_nat, u256_sub, u256_zero, u256_lt,
};

verus! {

/// The smaller of two gas figures.
pub fn min_u64(a: u64, b: u64) -> (r: u64)
    ensures
        r == (if a < b {
            a
        } else {
            b
        }),
{
    if a < b {
        a
    } else {
        b
    }
}

/// `BALANCE`: query an account's balance, charging by the fork's access
/// schedule and the host-reported access class.
pub fn balance<H: Host>(interp: &mut Interpreter, host: &mut H, spec_id: u8) -> (r: Return)
    requires
        old(interp).wf_base(),
    ensures
        final(interp).wf_base(),
        only_stack_and_gas_changed(*old(interp), *final(interp)),
        final(interp).gas.limit_spec() == old(interp).gas.limit_spec(),
        final(interp).gas.remaining_spec() <= old(interp).gas.remaining_spec(),
        (r == Return::StackUnderflow <==> old(interp).stack@.len() < 1),
        old(interp).stack@.len() < 1 ==> *final(interp) == *old(interp),
        r == Return::Continue || r == Return::StackUnderflow || r == Return::OutOfGas || r
            == Return::FatalExternalError,
        r == Return::Continue ==> old(interp).stack@.len() >= 1 && final(interp).stack@.len() == old(interp).stack@.len() && final(interp).stack@.drop_last() == old(interp).stack@.drop_last() && (
        final(interp).gas.remaining_spec() == old(interp).gas.remaining_spec() - balance_cost_spec(
            spec_id,
            true,
        ) || final(interp).gas.remaining_spec() == old(interp).gas.remaining_spec()
            - balance_cost_spec(spec_id, false)),
{
    if interp.stack.len() < 1 {
        return Return::StackUnderflow;
    }
    let address_word = match interp.stack.pop() {
        Ok(v) => v,
        Err(e) => { return e },
    };
    let address = Address::from_word(address_word);
    let (value, is_cold) = match host.balance(address) {
        Some(x) => x,
        None => { return Return::FatalExternalError },
    };
    let cost = balance_cost(spec_id, is_cold);
    if !interp.gas.record_cost(cost) {
        return Return::OutOfGas;
    }
    interp.stack.push(value)
}

/// `SELFBALANCE`: this account's balance, repriced low since Istanbul (the
/// low base sits in the gas block).
pub fn selfbalance<H: Host>(interp: &mut Interpreter, host: &mut H) -> (r: Return)
    requires
        old(interp).wf_base(),
    ensures
        final(interp).wf_base(),
        only_stack_and_gas_changed(*old(interp), *final(interp)),
        final(interp).gas == old(interp).gas,
        r == Return::Continue || r == Return::StackOverflow || r == Return::FatalExternalError,
        (r == Return::StackOverflow ==> old(interp).stack@.len() >= crate::stack::STACK_LIMIT),
        r == Return::Continue ==> old(interp).stack@.len() < crate::stack::STACK_LIMIT && final(interp).stack@.len() == old(interp).stack@.len() + 1 && final(interp).stack@.drop_last()
            == old(interp).stack@,
        r == Return::StackOverflow ==> *final(interp) == *old(interp),
{
    let address = interp.contract.address;
    let (value, _) = match host.balance(address) {
        Some(x) => x,
        None => { return Return::FatalExternalError },
    };
    interp.stack.push(value)
}

/// `EXTCODESIZE`: the length of an account's code; only the cold-access
/// delta is charged here, the warm base sits in the gas block.
pub fn extcodesize<H: Host>(interp: &mut Interpreter, host: &mut H, spec_id: u8) -> (r: Return)
    requires
        old(interp).wf_base(),
    ensures
        final(interp).wf_base(),
        only_stack_and_gas_changed(*old(interp), *final(interp)),
        final(interp).gas.limit_spec() == old(interp).gas.limit_spec(),
        final(interp).gas.remaining_spec() <= old(interp).gas.remaining_spec(),
        (r == Return::StackUnderflow <==> old(interp).stack@.len() < 1),
        old(interp).stack@.len() < 1 ==> *final(interp) == *old(interp),
        r == Return::Continue || r == Return::StackUnderflow || r == Return::OutOfGas || r
            == Return::FatalExternalError,
        r == Return::Continue ==> old(interp).stack@.len() >= 1 && final(interp).stack@.len() == old(interp).stack@.len() && final(interp).stack@.drop_last() == old(interp).stack@.drop_last(),
{
    if interp.stack.len() < 1 {
        return Return::StackUnderflow;
    }
    let address_word = match interp.stack.pop() {
        Ok(v) => v,
        Err(e) => { return e },
    };
    let address = Address::from_word(address_word);
    let (code, is_cold) = match host.code(address) {
        Some(x) => x,
        None => { return Return::FatalExternalError },
    };
    if SpecId::BERLIN.enabled_in(spec_id) && is_cold {
        if !interp.gas.record_cost(COLD_ACCOUNT_ACCESS_COST - WARM_STORAGE_READ_COST) {
            return Return::OutOfGas;
        }
    }
    let len = code.len();
    interp.stack.push(crate::u256::make_u256(len as u64))
}

/// `EXTCODEHASH`: the hash of an account's code; cold-access delta as for
/// `EXTCODESIZE`.
pub fn extcodehash<H: Host>(interp: &mut Interpreter, host: &mut H, spec_id: u8) -> (r: Return)
    requires
        old(interp).wf_base(),
    ensures
        final(interp).wf_base(),
        only_stack_and_gas_changed(*old(interp), *final(interp)),
        final(interp).gas.limit_spec() == old(interp).gas.limit_spec(),
        final(interp).gas.remaining_spec() <= old(interp).gas.remaining_spec(),
        (r == Return::StackUnderflow <==> old(interp).stack@.len() < 1),
        old(interp).stack@.len() < 1 ==> *final(interp) == *old(interp),
        r == Return::Continue || r == Return::StackUnderflow || r == Return::OutOfGas || r
            == Return::FatalExternalError,
        r == Return::Continue ==> old(interp).stack@.len() >= 1 && final(interp).stack@.len() == old(interp).stack@.len() && final(interp).stack@.drop_last() == old(interp).stack@.drop_last(),
{
    if interp.stack.len() < 1 {
        return Return::StackUnderflow;
    }
    let address_word = match interp.stack.pop() {
        Ok(v) => v,
        Err(e) => { return e },
    };
    let address = Address::from_word(address_word);
    let (code_hash, is_cold) = match host.code_hash(address) {
        Some(x) => x,
        None => { return Return::FatalExternalError },
    };
    if SpecId::BERLIN.enabled_in(spec_id) && is_cold {
        if !interp.gas.record_cost(COLD_ACCOUNT_ACCESS_COST - WARM_STORAGE_READ_COST) {
            return Return::OutOfGas;
        }
    }
    interp.stack.push(code_hash)
}

/// `EXTCODECOPY`: copy a window of an account's code into memory,
/// zero-padded past its end; charges per word plus the cold delta.
pub fn extcodecopy<H: Host>(interp: &mut Interpreter, host: &mut H, spec_id: u8) -> (r: Return)
    requires
        old(interp).wf_base(),
    ensures
        final(interp).wf_base(),
        frame_const(*old(interp), *final(interp)),
        final(interp).pc == old(interp).pc,
        final(interp).return_data_buffer@ == old(interp).return_data_buffer@,
        final(interp).return_range_start == old(interp).return_range_start,
        final(interp).return_range_end == old(interp).return_range_end,
        final(interp).gas.limit_spec() == old(interp).gas.limit_spec(),
        final(interp).gas.remaining_spec() <= old(interp).gas.remaining_spec(),
        final(interp).memory@.len() >= old(interp).memory@.len(),
        (r == Return::StackUnderflow <==> old(interp).stack@.len() < 4),
        old(interp).stack@.len() < 4 ==> *final(interp) == *old(interp),
        r == Return::Continue || r == Return::StackUnderflow || r == Return::OutOfGas || r
            == Return::InvalidMemoryRange || r == Return::FatalExternalError,
        r == Return::Continue ==> old(interp).stack@.len() >= 4 && final(interp).stack@ == old(interp).stack@.drop_last().drop_last().drop_last().drop_last(),
        r == Return::Continue ==> ({
            let mem_off = old(interp).stack@[old(interp).stack@.len() - 2];
            let len = old(interp).stack@[old(interp).stack@.len() - 4];
            &&& (forall|j: int|
                0 <= j < final(interp).memory@.len() && !(mem_off <= j < mem_off + len)
                    ==> final(interp).memory@[j] == (if j < old(interp).memory@.len() {
                    old(interp).memory@[j]
                } else {
                    0u8
                }))
            &&& (final(interp).gas.remaining_spec() == old(interp).gas.remaining_spec()
                - extcodecopy_cost_spec(spec_id, len, true)->0 - mem_expansion_cost(
                old(interp).memory@.len() as nat,
                final(interp).memory@.len() as nat,
            ) || final(interp).gas.remaining_spec() == old(interp).gas.remaining_spec()
                - extcodecopy_cost_spec(spec_id, len, false)->0 - mem_expansion_cost(
                old(interp).memory@.len() as nat,
                final(interp).memory@.len() as nat,
            ))
        }),
        r != Return::Continue ==> final(interp).memory@ == old(interp).memory@,
{
    if interp.stack.len() < 4 {
        return Return::StackUnderflow;
    }
    let address_word = match interp.stack.pop() {
        Ok(v) => v,
        Err(e) => { return e },
    };
    let mem_off_word = match interp.stack.pop() {
        Ok(v) => v,
        Err(e) => { return e },
    };
    let code_off_word = match interp.stack.pop() {
        Ok(v) => v,
        Err(e) => { return e },
    };
    let len_word = match interp.stack.pop() {
        Ok(v) => v,
        Err(e) => { return e },
    };
    let address = Address::from_word(address_word);
    let (code, is_cold) = match host.code(address) {
        Some(x) => x,
        None => { return Return::FatalExternalError },
    };
    let len = match u256_as_usize(&len_word) {
        Some(l) => l,
        None => { return Return::OutOfGas },
    };
    let cost = match extcodecopy_cost(spec_id, len as u64, is_cold) {
        Some(c) => c,
        None => { return Return::OutOfGas },
    };
    if !interp.gas.record_cost(cost) {
        return Return::OutOfGas;
    }
    if len == 0 {
        return Return::Continue;
    }
    let mem_off = match u256_as_usize(&mem_off_word) {
        Some(o) => o,
        None => { return Return::OutOfGas },
    };
    let code_off = crate::u256::u256_as_usize_saturated(&code_off_word);
    if mem_off > usize::MAX - len {
        return Return::OutOfGas;
    }
    let resized = interp.resize_memory(mem_off, len);
    if !matches!(resized, Return::Continue) {
        return resized;
    }
    interp.memory.set_data(mem_off, code_off, len, code.as_slice());
    Return::Continue
}

/// Whether `BLOCKHASH` may consult the host for `number`: it names one of
/// the 256 blocks before `current`, the current block itself excluded.
pub open spec fn blockhash_in_window_spec(number: nat, current: nat) -> bool {
    number < current && current - number <= 256
}

/// The `BLOCKHASH` window decision, taken on the requested and the current
/// block number; outside the window the opcode pushes zero without asking
/// the host.
pub fn blockhash_in_window(number: &U256, current: &U256) -> (r: bool)
    ensures
        r == blockhash_in_window_spec(u256_nat(*number), u256_nat(*current)),
{
    proof {
        crate::u256::lemma_u256_nat_bound(*number);
        crate::u256::lemma_u256_nat_bound(*current);
    }
    if u256_lt(number, current) {
        let diff = u256_sub(*current, *number);
        proof {
            vstd::arithmetic::div_mod::lemma_small_mod(
                (u256_nat(*current) - u256_nat(*number)) as nat,
                crate::u256::w256(),
            );
        }
        let d = u256_as_u64_saturated(&diff);
        d <= 256
    } else {
        false
    }
}

/// `BLOCKHASH`: the hash of one of the 256 most recent blocks, zero
/// otherwise (and for the current block itself).
pub fn blockhash<H: Host>(interp: &mut Interpreter, host: &mut H) -> (r: Return)
    requires
        old(interp).wf_base(),
    ensures
        final(interp).wf_base(),
        crate::interpreter::only_stack_changed(*old(interp), *final(interp)),
        (r == Return::StackUnderflow <==> old(interp).stack@.len() < 1),
        old(interp).stack@.len() < 1 ==> *final(interp) == *old(interp),
        r == Return::Continue || r == Return::StackUnderflow || r == Return::FatalExternalError,
        r == Return::Continue ==> old(interp).stack@.len() >= 1 && final(interp).stack@.len() == old(interp).stack@.len() && final(interp).stack@.drop_last() == old(interp).stack@.drop_last(),
{
    if interp.stack.len() < 1 {
        return Return::StackUnderflow;
    }
    let number = match interp.stack.pop() {
        Ok(v) => v,
        Err(e) => { return e },
    };
    let env = host.env();
    let current = env.block.number;
    if blockhash_in_window(&number, &current) {
        let hash = match host.block_hash(number) {
            Some(h) => h,
            None => { return Return::FatalExternalError },
        };
        return interp.stack.push(hash);
    }
    interp.stack.push(u256_zero())
}

/// `SLOAD`: read a storage slot, charging by the fork's schedule and the
/// host-reported access class.
pub fn sload<H: Host>(interp: &mut Interpreter, host: &mut H, spec_id: u8) -> (r: Return)
    requires
        old(interp).wf_base(),
    ensures
        final(interp).wf_base(),
        only_stack_and_gas_changed(*old(interp), *final(interp)),
        final(interp).gas.limit_spec() == old(interp).gas.limit_spec(),
        final(interp).gas.remaining_spec() <= old(interp).gas.remaining_spec(),
        old(interp).stack@.len() < 1 ==> r == Return::StackUnderflow && *final(interp) == *old(interp),
        r == Return::Continue ==> old(interp).stack@.len() >= 1 && final(interp).stack@.len() == old(interp).stack@.len() && final(interp).stack@.drop_last() == old(interp).stack@.drop_last() && (
        final(interp).gas.remaining_spec() == old(interp).gas.remaining_spec() - sload_cost_spec(
            spec_id,
            true,
        ) || final(interp).gas.remaining_spec() == old(interp).gas.remaining_spec()
            - sload_cost_spec(spec_id, false)),
{
    if interp.stack.len() < 1 {
        return Return::StackUnderflow;
    }
    let index = match interp.stack.pop() {
        Ok(v) => v,
        Err(e) => { return e },
    };
    let address = interp.contract.address;
    let (value, is_cold) = match host.sload(address, index) {
        Some(x) => x,
        None => { return Return::FatalExternalError },
    };
    let cost = sload_cost(spec_id, is_cold);
    if !interp.gas.record_cost(cost) {
        return Return::OutOfGas;
    }
    interp.stack.push(value)
}

/// `SSTORE`: write a storage slot under the EIP-2200 family of schedules,
/// then charge the next gas block (this opcode ends one).
pub fn sstore<H: Host>(interp: &mut Interpreter, host: &mut H, spec_id: u8) -> (r: Return)
    requires
        old(interp).wf_base(),
        1 <= old(interp).pc <= old(interp).contract.bytecode.code_spec().len(),
    ensures
        final(interp).wf_base(),
        only_stack_and_gas_changed(*old(interp), *final(interp)),
        final(interp).gas.limit_spec() == old(interp).gas.limit_spec(),
        final(interp).gas.remaining_spec() <= old(interp).gas.remaining_spec(),
        (r == Return::StackUnderflow <==> old(interp).stack@.len() < 2),
        old(interp).stack@.len() < 2 ==> *final(interp) == *old(interp),
        r == Return::Continue || r == Return::StackUnderflow || r == Return::OutOfGas || r
            == Return::FatalExternalError,
        r == Return::Continue ==> old(interp).stack@.len() >= 2 && final(interp).stack@ == old(interp).stack@.drop_last().drop_last(),
{
    if interp.stack.len() < 2 {
        return Return::StackUnderflow;
    }
    let index = match interp.stack.pop() {
        Ok(v) => v,
        Err(e) => { return e },
    };
    let value = match interp.stack.pop() {
        Ok(v) => v,
        Err(e) => { return e },
    };
    let address = interp.contract.address;
    let (original, present, new, is_cold) = match host.sstore(address, index, value) {
        Some(x) => x,
        None => { return Return::FatalExternalError },
    };
    let remaining = interp.gas.remaining();
    let cost = match sstore_cost(spec_id, &original, &present, &new, remaining, is_cold) {
        Some(c) => c,
        None => { return Return::OutOfGas },
    };
    if !interp.gas.record_cost(cost) {
        return Return::OutOfGas;
    }
    let refund = sstore_refund(spec_id, &original, &present, &new);
    interp.gas.record_refund(refund);
    let pc = interp.program_counter();
    interp.add_next_gas_block(pc - 1)
}

/// `LOG0` through `LOG4`: charge per topic and data byte, read the data
/// range and topics, and hand the record to the host.
pub fn log<H: Host>(interp: &mut Interpreter, host: &mut H, n: u8) -> (r: Return)
    requires
        old(interp).wf_base(),
        n <= 4,
    ensures
        final(interp).wf_base(),
        frame_const(*old(interp), *final(interp)),
        final(interp).pc == old(interp).pc,
        final(interp).return_data_buffer@ == old(interp).return_data_buffer@,
        final(interp).return_range_start == old(interp).return_range_start,
        final(interp).return_range_end == old(interp).return_range_end,
        final(interp).gas.limit_spec() == old(interp).gas.limit_spec(),
        final(interp).gas.remaining_spec() <= old(interp).gas.remaining_spec(),
        final(interp).memory@.len() >= old(interp).memory@.len(),
        old(interp).stack@.len() < 2 + n ==> r == Return::StackUnderflow && *final(interp) == *old(interp),
        old(interp).stack@.len() >= 2 + n ==> (r == Return::Continue <==> ({
            let offset = old(interp).stack@.last();
            let len = old(interp).stack@[old(interp).stack@.len() - 2];
            &&& len <= usize::MAX
            &&& log_cost_spec(n, len) is Some
            &&& log_cost_spec(n, len)->0 <= old(interp).gas.remaining_spec()
            &&& (len == 0 || (offset <= usize::MAX - len
                && crate::interpreter::can_grow_memory_with(
                *old(interp),
                offset,
                len,
                (old(interp).gas.remaining_spec() - log_cost_spec(n, len)->0) as nat,
            )))
        })),
        r == Return::Continue ==> old(interp).stack@.len() >= 2 + n && final(interp).stack@ == old(interp).stack@.take(old(interp).stack@.len() - 2 - n),
        r == Return::Continue ==> ({
            let len = old(interp).stack@[old(interp).stack@.len() - 2];
            &&& final(interp).memory@ == zero_extended(
                old(interp).memory@,
                final(interp).memory@.len() as nat,
            )
            &&& final(interp).gas.remaining_spec() == old(interp).gas.remaining_spec()
                - log_cost_spec(n, len)->0 - mem_expansion_cost(
                old(interp).memory@.len() as nat,
                final(interp).memory@.len() as nat,
            )
        }),
        r != Return::Continue ==> final(interp).memory@ == old(interp).memory@,
{
    if interp.stack.len() < 2 + n as usize {
        return Return::StackUnderflow;
    }
    let offset_word = match interp.stack.pop() {
        Ok(v) => v,
        Err(e) => { return e },
    };
    let len_word = match interp.stack.pop() {
        Ok(v) => v,
        Err(e) => { return e },
    };
    let len = match u256_as_usize(&len_word) {
        Some(l) => l,
        None => { return Return::OutOfGas },
    };
    let cost = match log_cost(n, len as u64) {
        Some(c) => c,
        None => { return Return::OutOfGas },
    };
    if !interp.gas.record_cost(cost) {
        return Return::OutOfGas;
    }
    let data: Vec<u8> = if len == 0 {
        Vec::new()
    } else {
        let offset = match u256_as_usize(&offset_word) {
            Some(o) => o,
            None => { return Return::OutOfGas },
        };
        if offset > usize::MAX - len {
            return Return::OutOfGas;
        }
        let resized = interp.resize_memory(offset, len);
        if !matches!(resized, Return::Continue) {
            return resized;
        }
        vstd::slice::slice_to_vec(interp.memory.get_slice(offset, len))
    };
    let topics = pop_topics(&mut interp.stack, n);
    let address = interp.contract.address;
    host.log(address, topics, data);
    Return::Continue
}

/// Pop the `n` topic words of a `LOG` opcode, top first.
fn pop_topics(stack: &mut crate::stack::Stack, n: u8) -> (r: Vec<U256>)
    requires
        old(stack).wf(),
        n <= old(stack)@.len(),
    ensures
        final(stack).wf(),
        r@.len() == n,
        final(stack)@ == old(stack)@.take(old(stack)@.len() - n),
        forall|k: int|
            0 <= k < n ==> u256_nat(#[trigger] r@[k]) == old(stack)@[old(stack)@.len() - 1 - k],
{
    let mut topics: Vec<U256> = Vec::new();
    let mut i: u8 = 0;
    while i < n
        invariant
            i <= n,
            n <= old(stack)@.len(),
            stack.wf(),
            topics@.len() == i,
            stack@ == old(stack)@.take(old(stack)@.len() - i),
            forall|k: int|
                0 <= k < i ==> u256_nat(#[trigger] topics@[k]) == old(stack)@[old(stack)@.len() - 1
                    - k],
        decreases n - i,
    {
        let t = match stack.pop() {
            Ok(v) => v,
            Err(e) => { return topics },
        };
        topics.push(t);
        i = i + 1;
        proof {
            assert(stack@ =~= old(stack)@.take(old(stack)@.len() - i));
        }
    }
    topics
}

/// `SELFDESTRUCT`: hand the account to the host, granting the pre-London
/// refund for a first destruction and charging the fork's cost for the
/// beneficiary access; the frame terminates.
pub fn selfdestruct<H: Host>(interp: &mut Interpreter, host: &mut H, spec_id: u8) -> (r: Return)
    requires
        old(interp).wf_base(),
    ensures
        final(interp).wf_base(),
        frame_const(*old(interp), *final(interp)),
        final(interp).pc == old(interp).pc,
        final(interp).gas.limit_spec() == old(interp).gas.limit_spec(),
        final(interp).gas.remaining_spec() <= old(interp).gas.remaining_spec(),
        (r == Return::StackUnderflow <==> old(interp).stack@.len() < 1),
        old(interp).stack@.len() < 1 ==> *final(interp) == *old(interp),
        r == Return::SelfDestruct || r == Return::StackUnderflow || r == Return::OutOfGas || r
            == Return::FatalExternalError,
        SpecId::LONDON.enabled_in_spec(spec_id) ==> final(interp).gas.refunded_spec() == old(interp).gas.refunded_spec(),
        !SpecId::LONDON.enabled_in_spec(spec_id) ==> final(interp).gas.refunded_spec() == old(interp).gas.refunded_spec() || final(interp).gas.refunded_spec() == crate::gas::clamp_i64(
            old(interp).gas.refunded_spec() + gas::SELFDESTRUCT,
        ),
{
    if interp.stack.len() < 1 {
        return Return::StackUnderflow;
    }
    let target_word = match interp.stack.pop() {
        Ok(v) => v,
        Err(e) => { return e },
    };
    let target = Address::from_word(target_word);
    let address = interp.contract.address;
    let res = match host.selfdestruct(address, target) {
        Some(x) => x,
        None => { return Return::FatalExternalError },
    };
    if !SpecId::LONDON.enabled_in(spec_id) && !res.previously_destroyed {
        interp.gas.record_refund(gas::SELFDESTRUCT);
    }
    let cost = selfdestruct_cost(spec_id, res.had_value, res.target_exists, res.is_cold);
    if !interp.gas.record_cost(cost) {
        return Return::OutOfGas;
    }
    Return::SelfDestruct
}

/// The identity a callee observes under each call scheme: who the frame
/// runs as, who it sees as caller, whose code runs, and what value it
/// believes it was sent.
pub fn build_call_context(
    scheme: CallScheme,
    to: Address,
    self_address: Address,
    self_caller: Address,
    self_value: U256,
    value: U256,
) -> (r: CallContext)
    ensures
        r.scheme == scheme,
        scheme == CallScheme::Call || scheme == CallScheme::StaticCall ==> r.address == to
            && r.caller == self_address && r.code_address == to && r.apparent_value == value,
        scheme == CallScheme::CallCode ==> r.address == self_address && r.caller == self_address
            && r.code_address == to && r.apparent_value == value,
        scheme == CallScheme::DelegateCall ==> r.address == self_address && r.caller == self_caller
            && r.code_address == to && r.apparent_value == self_value,
{
    match scheme {
        CallScheme::Call | CallScheme::StaticCall => CallContext {
            address: to,
            caller: self_address,
            code_address: to,
            apparent_value: value,
            scheme,
        },
        CallScheme::CallCode => CallContext {
            address: self_address,
            caller: self_address,
            code_address: to,
            apparent_value: value,
            scheme,
        },
        CallScheme::DelegateCall => CallContext {
            address: self_address,
            caller: self_caller,
            code_address: to,
            apparent_value: self_value,
            scheme,
        },
    }
}

/// The asset movement of each call scheme: `CALL` pays the target,
/// `CALLCODE` pays the caller's own account, and the delegating schemes
/// move nothing.
pub fn build_transfer(scheme: CallScheme, to: Address, self_address: Address, value: U256) -> (r:
    Transfer)
    ensures
        scheme == CallScheme::Call ==> r.source == self_address && r.target == to && r.value
            == value,
        scheme == CallScheme::CallCode ==> r.source == self_address && r.target == self_address
            && r.value == value,
        scheme == CallScheme::DelegateCall || scheme == CallScheme::StaticCall ==> r.source
            == self_address && r.target == self_address && u256_nat(r.value) == 0,
{
    match scheme {
        CallScheme::Call => Transfer { source: self_address, target: to, value },
        CallScheme::CallCode => Transfer { source: self_address, target: self_address, value },
        CallScheme::DelegateCall | CallScheme::StaticCall => Transfer {
            source: self_address,
            target: self_address,
            value: u256_zero(),
        },
    }
}

/// Fold a sub-frame's outcome back into the parent: keep the returned
/// bytes, copy their prefix into the out window, hand back unused gas (at
/// most what the call charged), keep the refund on success, and push the
/// success flag. The parent's remaining gas afterwards is exactly what it
/// had after charging, plus what the child left over.
pub fn apply_call_result(
    interp: &mut Interpreter,
    reason: Return,
    child_remaining: u64,
    child_refunded: i64,
    charged: u64,
    out_offset: usize,
    out_len: usize,
    data: Vec<u8>,
) -> (r: Return)
    requires
        old(interp).wf_base(),
        out_len > 0 ==> out_offset + out_len <= old(interp).memory@.len(),
        1 <= old(interp).pc <= old(interp).contract.bytecode.code_spec().len(),
        charged <= old(interp).gas.limit_spec() - old(interp).gas.remaining_spec(),
    ensures
        final(interp).wf_base(),
        frame_const(*old(interp), *final(interp)),
        final(interp).pc == old(interp).pc,
        final(interp).memory@.len() == old(interp).memory@.len(),
        final(interp).gas.limit_spec() == old(interp).gas.limit_spec(),
        r == Return::FatalExternalError || r == Return::Continue || r == Return::OutOfGas || r
            == Return::StackOverflow,
        reason == Return::FatalExternalError ==> r == Return::FatalExternalError,
        reason != Return::FatalExternalError && (reason.is_success_spec() || reason.is_revert_spec())
            && child_remaining <= charged ==> ({
            let cost = old(interp).contract.bytecode.gas_blocks_spec()[old(interp).pc - 1];
            &&& final(interp).gas.remaining_spec() >= old(interp).gas.remaining_spec()
                + child_remaining - cost
            &&& (cost <= old(interp).gas.remaining_spec() + child_remaining && old(interp).stack@.len() < crate::stack::STACK_LIMIT ==> r == Return::Continue && final(interp).gas.remaining_spec() == old(interp).gas.remaining_spec() + child_remaining - cost)
        }),
        !(reason.is_success_spec() || reason.is_revert_spec()) ==> final(interp).gas.remaining_spec()
            <= old(interp).gas.remaining_spec(),
        final(interp).gas.remaining_spec() <= old(interp).gas.remaining_spec() + (if child_remaining
            < charged {
            child_remaining
        } else {
            charged
        }),
        r == Return::Continue ==> final(interp).stack@.len() == old(interp).stack@.len() + 1
            && final(interp).stack@.drop_last() == old(interp).stack@,
        r == Return::Continue && reason.is_success_spec() ==> final(interp).stack@.last() == 1,
        r == Return::Continue && !reason.is_success_spec() ==> final(interp).stack@.last() == 0,
        reason.is_success_spec() ==> final(interp).gas.refunded_spec() == crate::gas::clamp_i64(
            old(interp).gas.refunded_spec() + child_refunded,
        ),
        !reason.is_success_spec() ==> final(interp).gas.refunded_spec() == old(interp).gas.refunded_spec(),
        final(interp).return_data_buffer@ == data@,
        (reason.is_success_spec() || reason.is_revert_spec()) && reason
            != Return::FatalExternalError ==> ({
            let copied: int = if out_len < data@.len() {
                out_len as int
            } else {
                data@.len() as int
            };
            forall|j: int|
                0 <= j < final(interp).memory@.len() ==> final(interp).memory@[j] == (if out_offset
                    <= j < out_offset + copied {
                    data@[j - out_offset]
                } else {
                    old(interp).memory@[j]
                })
        }),
        !(reason.is_success_spec() || reason.is_revert_spec()) ==> final(interp).memory@ == old(interp).memory@,
{
    interp.return_data_buffer = data;
    let buf_len = interp.return_data_buffer.len();
    let target_len = if out_len < buf_len {
        out_len
    } else {
        buf_len
    };
    let back = min_u64(child_remaining, charged);
    proof {
        assert(old(interp).gas.remaining_spec() + back <= old(interp).gas.limit_spec());
    }
    if matches!(reason, Return::FatalExternalError) {
        return Return::FatalExternalError;
    }
    let ok = reason.is_success();
    let rev = reason.is_revert();
    if ok || rev {
        interp.gas.erase_cost(back);
        if ok {
            interp.gas.record_refund(child_refunded);
        }
        if target_len > 0 {
            let (buffer, memory) = (&interp.return_data_buffer, &mut interp.memory);
            memory.set(out_offset, vstd::slice::slice_subrange(
                buffer.as_slice(),
                0,
                target_len,
            ));
        }
        let flag = if ok {
            crate::u256::u256_one()
        } else {
            u256_zero()
        };
        let pushed = interp.stack.push(flag);
        if !matches!(pushed, Return::Continue) {
            return pushed;
        }
    } else {
        let pushed = interp.stack.push(u256_zero());
        if !matches!(pushed, Return::Continue) {
            return pushed;
        }
    }
    let pc = interp.program_counter();
    interp.add_next_gas_block(pc - 1)
}

/// The popped request of a call opcode, with the memory windows already
/// grown: the stipulated gas, the target, the value, the input bytes, and
/// the out window (offset `usize::MAX` when it is empty).
/// Whether a call scheme pops a value operand.
pub open spec fn call_has_value_operand(scheme: CallScheme) -> bool {
    scheme == CallScheme::Call || scheme == CallScheme::CallCode
}

/// Whether the input and output windows a call names on the stack can both
/// be grown: offsets fit the machine, the first growth is within the cap
/// and affordable, and the second still is over the grown memory and the
/// reduced gas.
pub open spec fn call_windows_ok(pre: Interpreter, scheme: CallScheme) -> bool {
    let base: int = if call_has_value_operand(scheme) {
        4
    } else {
        3
    };
    let in_off = pre.stack@[pre.stack@.len() - base];
    let in_len = pre.stack@[pre.stack@.len() - base - 1];
    let out_off = pre.stack@[pre.stack@.len() - base - 2];
    let out_len = pre.stack@[pre.stack@.len() - base - 3];
    &&& in_len <= usize::MAX
    &&& (in_len == 0 || (in_off <= usize::MAX - in_len && crate::interpreter::can_grow_memory(
        pre,
        in_off,
        in_len,
    )))
    &&& out_len <= usize::MAX
    &&& (out_len == 0 || (out_off <= usize::MAX - out_len && ({
        let len1 = crate::interpreter::grown_len(pre.memory@.len() as nat, in_off, in_len);
        let rem1 = pre.gas.remaining_spec() - crate::interpreter::mem_expansion_cost(
            pre.memory@.len() as nat,
            len1,
        );
        (out_off + out_len <= len1) || (crate::gas::words_of(out_off + out_len) * 32
            <= pre.memory_limit && crate::gas::memory_gas_spec(
            crate::gas::words_of(out_off + out_len),
        ) - crate::gas::memory_gas_spec(len1 / 32) <= rem1)
    })))
}

pub struct CallOperands {
    pub local_gas_limit: u64,
    pub to: Address,
    pub value: U256,
    pub input: Vec<u8>,
    pub out_offset: usize,
    pub out_len: usize,
}

/// Convert one `(offset, length)` operand pair and grow memory over the
/// window it names; an empty window converts to `(0, 0)` and grows
/// nothing.
fn grow_window(interp: &mut Interpreter, off_word: &U256, len_word: &U256) -> (r: Result<
    (usize, usize),
    Return,
>)
    requires
        old(interp).wf_base(),
    ensures
        final(interp).wf_base(),
        frame_const(*old(interp), *final(interp)),
        final(interp).pc == old(interp).pc,
        final(interp).stack@ == old(interp).stack@,
        final(interp).return_data_buffer@ == old(interp).return_data_buffer@,
        final(interp).return_range_start == old(interp).return_range_start,
        final(interp).return_range_end == old(interp).return_range_end,
        final(interp).gas.limit_spec() == old(interp).gas.limit_spec(),
        final(interp).gas.remaining_spec() <= old(interp).gas.remaining_spec(),
        r is Ok <==> u256_nat(*len_word) <= usize::MAX && (u256_nat(*len_word) == 0 || (u256_nat(
            *off_word,
        ) <= usize::MAX - u256_nat(*len_word) && crate::interpreter::can_grow_memory(
            *old(interp),
            u256_nat(*off_word),
            u256_nat(*len_word),
        ))),
        r is Err ==> (r->Err_0 == Return::OutOfGas || r->Err_0 == Return::InvalidMemoryRange)
            && final(interp).memory@ == old(interp).memory@ && final(interp).gas == old(interp).gas,
        r is Ok ==> ({
            let l = r->Ok_0.1;
            &&& l == u256_nat(*len_word)
            &&& (l > 0 ==> r->Ok_0.0 == u256_nat(*off_word) && r->Ok_0.0 + l <= final(interp).memory@.len())
            &&& (l == 0 ==> final(interp).memory@ == old(interp).memory@ && final(interp).gas
                == old(interp).gas)
            &&& final(interp).memory@ == crate::interpreter::zero_extended(
                old(interp).memory@,
                final(interp).memory@.len() as nat,
            )
            &&& final(interp).memory@.len() == crate::interpreter::grown_len(
                old(interp).memory@.len() as nat,
                u256_nat(*off_word),
                u256_nat(*len_word),
            )
            &&& final(interp).gas.remaining_spec() == old(interp).gas.remaining_spec()
                - mem_expansion_cost(
                old(interp).memory@.len() as nat,
                final(interp).memory@.len() as nat,
            )
        }),
{
    let len = match u256_as_usize(len_word) {
        Some(l) => l,
        None => { return Err(Return::OutOfGas) },
    };
    if len == 0 {
        return Ok((0, 0));
    }
    let off = match u256_as_usize(off_word) {
        Some(o) => o,
        None => { return Err(Return::OutOfGas) },
    };
    if off > usize::MAX - len {
        return Err(Return::OutOfGas);
    }
    let resized = interp.resize_memory(off, len);
    if !matches!(resized, Return::Continue) {
        if matches!(resized, Return::InvalidMemoryRange) {
            return Err(Return::InvalidMemoryRange);
        }
        return Err(Return::OutOfGas);
    }
    Ok((off, len))
}

/// Pop a call opcode's seven (six without a value) operands and grow the
/// input and output memory windows.
#[verifier::rlimit(100)]
#[verifier::spinoff_prover]
fn pop_call_operands(interp: &mut Interpreter, scheme: CallScheme) -> (r: Result<
    CallOperands,
    Return,
>)
    requires
        old(interp).wf_base(),
        (scheme == CallScheme::Call || scheme == CallScheme::CallCode) ==> old(interp).stack@.len()
            >= 7,
        (scheme == CallScheme::DelegateCall || scheme == CallScheme::StaticCall) ==> old(
            interp,
        ).stack@.len() >= 6,
    ensures
        final(interp).wf_base(),
        frame_const(*old(interp), *final(interp)),
        final(interp).pc == old(interp).pc,
        final(interp).return_data_buffer@ == old(interp).return_data_buffer@,
        final(interp).return_range_start == old(interp).return_range_start,
        final(interp).return_range_end == old(interp).return_range_end,
        final(interp).gas.limit_spec() == old(interp).gas.limit_spec(),
        final(interp).gas.remaining_spec() <= old(interp).gas.remaining_spec(),
        old(interp).is_static && scheme == CallScheme::Call && old(interp).stack@[old(
            interp,
        ).stack@.len() - 3] != 0 ==> r == Err::<CallOperands, Return>(
            Return::CallNotAllowedInsideStatic,
        ) && final(interp).stack@ == old(interp).stack@.take(old(interp).stack@.len() - 3)
            && final(interp).memory@ == old(interp).memory@ && final(interp).gas == old(interp).gas,
        r is Ok <==> !(old(interp).is_static && scheme == CallScheme::Call && old(interp).stack@[old(interp).stack@.len() - 3] != 0) && call_windows_ok(*old(interp), scheme),
        r is Err ==> r->Err_0 == Return::CallNotAllowedInsideStatic || r->Err_0 == Return::OutOfGas
            || r->Err_0 == Return::InvalidMemoryRange,
        r == Err::<CallOperands, Return>(Return::CallNotAllowedInsideStatic) ==> old(interp).is_static && scheme == CallScheme::Call && old(interp).stack@[old(interp).stack@.len() - 3]
            != 0,
        r is Ok ==> ({
            let ops = r->Ok_0;
            let pre = old(interp).stack@;
            let base: int = if call_has_value_operand(scheme) {
                4
            } else {
                3
            };
            &&& final(interp).stack@ == pre.take(pre.len() - base - 3)
            &&& (pre.last() <= u64::MAX ==> ops.local_gas_limit == pre.last())
            &&& (pre.last() > u64::MAX ==> ops.local_gas_limit == u64::MAX)
            &&& ops.to@ == pre[pre.len() - 2] % vstd::arithmetic::power2::pow2(160)
            &&& (call_has_value_operand(scheme) ==> u256_nat(ops.value) == pre[pre.len() - 3])
            &&& (!call_has_value_operand(scheme) ==> u256_nat(ops.value) == 0)
            &&& (pre[pre.len() - base - 1] == 0 ==> ops.input@ == Seq::<u8>::empty())
            &&& (pre[pre.len() - base - 1] != 0 ==> ops.input@ == final(interp).memory@.subrange(
                pre[pre.len() - base] as int,
                (pre[pre.len() - base] + pre[pre.len() - base - 1]) as int,
            ))
            &&& ops.out_len == pre[pre.len() - base - 3]
            &&& (ops.out_len > 0 ==> ops.out_offset == pre[pre.len() - base - 2] && ops.out_offset
                + ops.out_len <= final(interp).memory@.len())
            &&& (ops.out_len == 0 ==> ops.out_offset == usize::MAX)
        }),

{
    let local_gas_limit_word = match interp.stack.pop() {
        Ok(v) => v,
        Err(e) => { return Err(e) },
    };
    let to_word = match interp.stack.pop() {
        Ok(v) => v,
        Err(e) => { return Err(e) },
    };
    let to = Address::from_word(to_word);
    let local_gas_limit = u256_as_u64_saturated(&local_gas_limit_word);
    let value: U256 = match scheme {
        CallScheme::CallCode => {
            let v = match interp.stack.pop() {
                Ok(v) => v,
                Err(e) => { return Err(e) },
            };
            v
        },
        CallScheme::Call => {
            let v = match interp.stack.pop() {
                Ok(v) => v,
                Err(e) => { return Err(e) },
            };
            if interp.is_static && !u256_is_zero(&v) {
                return Err(Return::CallNotAllowedInsideStatic);
            }
            v
        },
        CallScheme::DelegateCall | CallScheme::StaticCall => u256_zero(),
    };
    let in_off_word = match interp.stack.pop() {
        Ok(v) => v,
        Err(e) => { return Err(e) },
    };
    let in_len_word = match interp.stack.pop() {
        Ok(v) => v,
        Err(e) => { return Err(e) },
    };
    let out_off_word = match interp.stack.pop() {
        Ok(v) => v,
        Err(e) => { return Err(e) },
    };
    let out_len_word = match interp.stack.pop() {
        Ok(v) => v,
        Err(e) => { return Err(e) },
    };
    let (in_off, in_len) = match grow_window(interp, &in_off_word, &in_len_word) {
        Ok(w) => w,
        Err(e) => { return Err(e) },
    };
    let input: Vec<u8> = if in_len != 0 {
        vstd::slice::slice_to_vec(interp.memory.get_slice(in_off, in_len))
    } else {
        Vec::new()
    };
    let (out_off, out_len) = match grow_window(interp, &out_off_word, &out_len_word) {
        Ok(w) => w,
        Err(e) => { return Err(e) },
    };
    let out_offset: usize = if out_len != 0 {
        out_off
    } else {
        usize::MAX
    };
    Ok(CallOperands { local_gas_limit, to, value, input, out_offset, out_len })
}

/// The shared body of `CALL`, `CALLCODE`, `DELEGATECALL` and `STATICCALL`:
/// pop the request, enforce the static rule and the fork gate, charge the
/// access and transfer costs, forward at most 63/64 of the remaining gas,
/// run the child through the host, and fold its outcome back.
#[verifier::rlimit(100)]
#[verifier::spinoff_prover]
pub fn call_template<H: Host>(
    interp: &mut Interpreter,
    scheme: CallScheme,
    host: &mut H,
    spec_id: u8,
) -> (r: Return)
    requires
        old(interp).wf_base(),
        1 <= old(interp).pc <= old(interp).contract.bytecode.code_spec().len(),
    ensures
        final(interp).wf_base(),
        frame_const(*old(interp), *final(interp)),
        final(interp).pc == old(interp).pc,
        final(interp).gas.limit_spec() == old(interp).gas.limit_spec(),
        final(interp).gas.remaining_spec() <= old(interp).gas.remaining_spec(),
        scheme == CallScheme::DelegateCall && !SpecId::HOMESTEAD.enabled_in_spec(spec_id) ==> r
            == Return::NotActivated && *final(interp) == *old(interp),
        scheme == CallScheme::StaticCall && !SpecId::BYZANTIUM.enabled_in_spec(spec_id) ==> r
            == Return::NotActivated && *final(interp) == *old(interp),
        ({
            let needed: int = if scheme == CallScheme::Call || scheme == CallScheme::CallCode {
                7
            } else {
                6
            };
            (scheme == CallScheme::DelegateCall ==> SpecId::HOMESTEAD.enabled_in_spec(spec_id))
                && (scheme == CallScheme::StaticCall ==> SpecId::BYZANTIUM.enabled_in_spec(spec_id))
                && old(interp).stack@.len() < needed ==> r == Return::StackUnderflow && final(interp).stack@ == old(interp).stack@
        }),
        r == Return::StackUnderflow ==> old(interp).stack@.len() < (if scheme == CallScheme::Call
            || scheme == CallScheme::CallCode {
            7int
        } else {
            6
        }),
        old(interp).is_static && scheme == CallScheme::Call && old(interp).stack@.len() >= 7 && old(interp).stack@[old(interp).stack@.len() - 3] != 0 ==> r == Return::CallNotAllowedInsideStatic
            && final(interp).stack@ == old(interp).stack@.take(old(interp).stack@.len() - 3)
            && final(interp).memory@ == old(interp).memory@ && final(interp).gas == old(interp).gas
            && final(interp).return_data_buffer@ == Seq::<u8>::empty(),
        ({
            let needed: int = if scheme == CallScheme::Call || scheme == CallScheme::CallCode {
                7
            } else {
                6
            };
            (scheme == CallScheme::DelegateCall ==> SpecId::HOMESTEAD.enabled_in_spec(spec_id))
                && (scheme == CallScheme::StaticCall ==> SpecId::BYZANTIUM.enabled_in_spec(spec_id))
                && old(interp).stack@.len() >= needed && !(old(interp).is_static && scheme
                == CallScheme::Call && old(interp).stack@[old(interp).stack@.len() - 3] != 0)
                && !call_windows_ok(*old(interp), scheme) ==> r == Return::OutOfGas || r
                == Return::InvalidMemoryRange
        }),
{
    match scheme {
        CallScheme::DelegateCall => {
            if !SpecId::HOMESTEAD.enabled_in(spec_id) {
                return Return::NotActivated;
            }
        },
        CallScheme::StaticCall => {
            if !SpecId::BYZANTIUM.enabled_in(spec_id) {
                return Return::NotActivated;
            }
        },
        _ => {},
    }
    interp.return_data_buffer = Vec::new();
    let needed: usize = match scheme {
        CallScheme::Call | CallScheme::CallCode => 7,
        _ => 6,
    };
    if interp.stack.len() < needed {
        return Return::StackUnderflow;
    }
    let ops = match pop_call_operands(interp, scheme) {
        Ok(o) => o,
        Err(e) => { return e },
    };
    let self_address = interp.contract.address;
    let self_caller = interp.contract.caller;
    let self_value = interp.contract.value;
    let context = build_call_context(
        scheme,
        ops.to,
        self_address,
        self_caller,
        self_value,
        ops.value,
    );
    let transfer = build_transfer(scheme, ops.to, self_address, ops.value);
    let (is_cold, exists) = match host.load_account(ops.to) {
        Some(x) => x,
        None => { return Return::FatalExternalError },
    };
    let is_new = !exists;
    let transfers_value = !u256_is_zero(&transfer.value);
    let is_call_or_callcode = matches!(scheme, CallScheme::Call | CallScheme::CallCode);
    let is_call_or_staticcall = matches!(scheme, CallScheme::Call | CallScheme::StaticCall);
    let access_cost = call_cost(
        spec_id,
        transfers_value,
        is_new,
        is_cold,
        is_call_or_callcode,
        is_call_or_staticcall,
    );
    proof {
        interp.gas.lemma_wf();
    }
    if !interp.gas.record_cost(access_cost) {
        return Return::OutOfGas;
    }
    let remaining = interp.gas.remaining();
    let mut gas_limit = forwarded_gas(spec_id, remaining, ops.local_gas_limit);
    if !interp.gas.record_cost(gas_limit) {
        return Return::OutOfGas;
    }
    let charged = gas_limit;
    if is_call_or_callcode && transfers_value {
        gas_limit = if gas_limit > u64::MAX - CALL_STIPEND {
            u64::MAX
        } else {
            gas_limit + CALL_STIPEND
        };
    }
    let is_static = matches!(scheme, CallScheme::StaticCall);
    let mut call_input = CallInputs {
        contract: ops.to,
        transfer,
        input: ops.input,
        gas_limit,
        context,
        is_static,
    };
    let (reason, child_gas, return_data) = host.call(&mut call_input);
    let child_remaining = child_gas.remaining();
    let child_refunded = child_gas.refunded();
    proof {
        assert(charged + access_cost <= interp.gas.limit_spec() - interp.gas.remaining_spec());
    }
    let charged_total = charged + access_cost;
    apply_call_result(
        interp,
        reason,
        child_remaining,
        child_refunded,
        charged_total,
        ops.out_offset,
        ops.out_len,
        return_data,
    )
}

/// `CALL`.
pub fn call<H: Host>(interp: &mut Interpreter, host: &mut H, spec_id: u8) -> (r: Return)
    requires
        old(interp).wf_base(),
        1 <= old(interp).pc <= old(interp).contract.bytecode.code_spec().len(),
    ensures
        final(interp).wf_base(),
        frame_const(*old(interp), *final(interp)),
        final(interp).pc == old(interp).pc,
        final(interp).gas.limit_spec() == old(interp).gas.limit_spec(),
        final(interp).gas.remaining_spec() <= old(interp).gas.remaining_spec(),
        old(interp).is_static && old(interp).stack@.len() >= 7 && old(interp).stack@[old(interp).stack@.len() - 3] != 0 ==> r == Return::CallNotAllowedInsideStatic && final(interp).stack@
            == old(interp).stack@.take(old(interp).stack@.len() - 3) && final(interp).memory@
            == old(interp).memory@ && final(interp).gas == old(interp).gas && final(interp).return_data_buffer@ == Seq::<u8>::empty(),
{
    call_template(interp, CallScheme::Call, host, spec_id)
}

/// `CALLCODE`.
pub fn callcode<H: Host>(interp: &mut Interpreter, host: &mut H, spec_id: u8) -> (r: Return)
    requires
        old(interp).wf_base(),
        1 <= old(interp).pc <= old(interp).contract.bytecode.code_spec().len(),
    ensures
        final(interp).wf_base(),
        frame_const(*old(interp), *final(interp)),
        final(interp).pc == old(interp).pc,
        final(interp).gas.limit_spec() == old(interp).gas.limit_spec(),
        final(interp).gas.remaining_spec() <= old(interp).gas.remaining_spec(),
{
    call_template(interp, CallScheme::CallCode, host, spec_id)
}

/// `DELEGATECALL`, available since Homestead.
pub fn delegatecall<H: Host>(interp: &mut Interpreter, host: &mut H, spec_id: u8) -> (r: Return)
    requires
        old(interp).wf_base(),
        1 <= old(interp).pc <= old(interp).contract.bytecode.code_spec().len(),
    ensures
        final(interp).wf_base(),
        frame_const(*old(interp), *final(interp)),
        final(interp).pc == old(interp).pc,
        final(interp).gas.limit_spec() == old(interp).gas.limit_spec(),
        final(interp).gas.remaining_spec() <= old(interp).gas.remaining_spec(),
        !SpecId::HOMESTEAD.enabled_in_spec(spec_id) ==> r == Return::NotActivated && *final(interp)
            == *old(interp),
{
    call_template(interp, CallScheme::DelegateCall, host, spec_id)
}

/// `STATICCALL`, available since Byzantium.
pub fn staticcall<H: Host>(interp: &mut Interpreter, host: &mut H, spec_id: u8) -> (r: Return)
    requires
        old(interp).wf_base(),
        1 <= old(interp).pc <= old(interp).contract.bytecode.code_spec().len(),
    ensures
        final(interp).wf_base(),
        frame_const(*old(interp), *final(interp)),
        final(interp).pc == old(interp).pc,
        final(interp).gas.limit_spec() == old(interp).gas.limit_spec(),
        final(interp).gas.remaining_spec() <= old(interp).gas.remaining_spec(),
        !SpecId::BYZANTIUM.enabled_in_spec(spec_id) ==> r == Return::NotActivated && *final(interp)
            == *old(interp),
{
    call_template(interp, CallScheme::StaticCall, host, spec_id)
}

/// Fold a creation's outcome back into the parent: keep the returned
/// bytes on success or revert and drop them on any other failure, hand
/// back unused gas (at most what the creation forwarded), keep the refund
/// on success, and push the created address — zero on anything but
/// success. The parent's remaining gas afterwards is exactly what it had
/// after charging, plus what the child left over.
pub fn apply_create_result(
    interp: &mut Interpreter,
    reason: Return,
    created: Option<Address>,
    child_remaining: u64,
    child_refunded: i64,
    charged: u64,
    data: Vec<u8>,
) -> (r: Return)
    requires
        old(interp).wf_base(),
        1 <= old(interp).pc <= old(interp).contract.bytecode.code_spec().len(),
        charged <= old(interp).gas.limit_spec() - old(interp).gas.remaining_spec(),
    ensures
        final(interp).wf_base(),
        frame_const(*old(interp), *final(interp)),
        final(interp).pc == old(interp).pc,
        final(interp).memory@ == old(interp).memory@,
        final(interp).return_range_start == old(interp).return_range_start,
        final(interp).return_range_end == old(interp).return_range_end,
        final(interp).gas.limit_spec() == old(interp).gas.limit_spec(),
        r == Return::FatalExternalError || r == Return::Continue || r == Return::OutOfGas || r
            == Return::StackOverflow,
        reason == Return::FatalExternalError ==> r == Return::FatalExternalError,
        (reason.is_success_spec() || reason.is_revert_spec()) && reason
            != Return::FatalExternalError ==> final(interp).return_data_buffer@ == data@,
        !(reason.is_success_spec() || reason.is_revert_spec()) && reason
            != Return::FatalExternalError ==> final(interp).return_data_buffer@ == Seq::<
            u8,
        >::empty(),
        reason != Return::FatalExternalError && (reason.is_success_spec() || reason.is_revert_spec())
            && child_remaining <= charged ==> ({
            let cost = old(interp).contract.bytecode.gas_blocks_spec()[old(interp).pc - 1];
            &&& final(interp).gas.remaining_spec() >= old(interp).gas.remaining_spec()
                + child_remaining - cost
            &&& (cost <= old(interp).gas.remaining_spec() + child_remaining && old(interp).stack@.len() < crate::stack::STACK_LIMIT ==> r == Return::Continue && final(interp).gas.remaining_spec() == old(interp).gas.remaining_spec() + child_remaining - cost)
        }),
        !(reason.is_success_spec() || reason.is_revert_spec()) ==> final(interp).gas.remaining_spec()
            <= old(interp).gas.remaining_spec(),
        final(interp).gas.remaining_spec() <= old(interp).gas.remaining_spec() + (if child_remaining
            < charged {
            child_remaining
        } else {
            charged
        }),
        r == Return::Continue ==> final(interp).stack@.len() == old(interp).stack@.len() + 1
            && final(interp).stack@.drop_last() == old(interp).stack@,
        reason.is_success_spec() ==> final(interp).gas.refunded_spec() == crate::gas::clamp_i64(
            old(interp).gas.refunded_spec() + child_refunded,
        ),
        !reason.is_success_spec() ==> final(interp).gas.refunded_spec() == old(interp).gas.refunded_spec(),
        r == Return::Continue && reason.is_success_spec() ==> final(interp).stack@.last() == (
        if created is Some {
            created->0@
        } else {
            0nat
        }),
        r == Return::Continue && !reason.is_success_spec() ==> final(interp).stack@.last() == 0,
{
    interp.return_data_buffer = data;
    let back = min_u64(child_remaining, charged);
    proof {
        assert(old(interp).gas.remaining_spec() + back <= old(interp).gas.limit_spec());
    }
    if matches!(reason, Return::FatalExternalError) {
        return Return::FatalExternalError;
    }
    let ok = reason.is_success();
    let rev = reason.is_revert();
    let flag: U256 = if ok {
        match created {
            Some(a) => a.to_word(),
            None => u256_zero(),
        }
    } else {
        u256_zero()
    };
    if ok || rev {
        interp.gas.erase_cost(back);
        if ok {
            interp.gas.record_refund(child_refunded);
        }
    } else {
        interp.return_data_buffer = Vec::new();
    }
    let pushed = interp.stack.push(flag);
    if !matches!(pushed, Return::Continue) {
        return pushed;
    }
    let pc = interp.program_counter();
    interp.add_next_gas_block(pc - 1)
}

/// `CREATE` and `CREATE2`: slice the init code out of memory, charge the
/// creation cost (plus per-word hashing for `CREATE2`), forward 63/64 of
/// the remaining gas, run the creation through the host, and fold its
/// outcome back.
pub fn create<H: Host>(
    interp: &mut Interpreter,
    is_create2: bool,
    host: &mut H,
    spec_id: u8,
) -> (r: Return)
    requires
        old(interp).wf_base(),
        1 <= old(interp).pc <= old(interp).contract.bytecode.code_spec().len(),
    ensures
        final(interp).wf_base(),
        frame_const(*old(interp), *final(interp)),
        final(interp).pc == old(interp).pc,
        final(interp).gas.limit_spec() == old(interp).gas.limit_spec(),
        final(interp).gas.remaining_spec() <= old(interp).gas.remaining_spec(),
        is_create2 && !SpecId::PETERSBURG.enabled_in_spec(spec_id) ==> r == Return::NotActivated
            && *final(interp) == *old(interp),
        ({
            let needed: int = if is_create2 {
                4
            } else {
                3
            };
            (is_create2 ==> SpecId::PETERSBURG.enabled_in_spec(spec_id)) && old(interp).stack@.len()
                < needed ==> r == Return::StackUnderflow && final(interp).stack@ == old(interp).stack@ && final(interp).memory@ == old(interp).memory@ && final(interp).gas
                == old(interp).gas && final(interp).return_data_buffer@ == Seq::<u8>::empty()
        }),
        r == Return::Continue ==> final(interp).stack@.len() + (if is_create2 {
            4int
        } else {
            3
        }) == old(interp).stack@.len() + 1,
        r == Return::StackUnderflow ==> old(interp).stack@.len() < (if is_create2 {
            4int
        } else {
            3
        }),
        ({
            let needed: int = if is_create2 {
                4
            } else {
                3
            };
            let code_off = old(interp).stack@[old(interp).stack@.len() - 2];
            let len = old(interp).stack@[old(interp).stack@.len() - 3];
            (is_create2 ==> SpecId::PETERSBURG.enabled_in_spec(spec_id)) && old(interp).stack@.len()
                >= needed && !(len <= usize::MAX && (len == 0 || (code_off <= usize::MAX - len
                && crate::interpreter::can_grow_memory(*old(interp), code_off, len)))) ==> r
                == Return::OutOfGas || r == Return::InvalidMemoryRange
        }),
{
    if is_create2 {
        if !SpecId::PETERSBURG.enabled_in(spec_id) {
            return Return::NotActivated;
        }
    }
    interp.return_data_buffer = Vec::new();
    let needed: usize = if is_create2 {
        4
    } else {
        3
    };
    if interp.stack.len() < needed {
        return Return::StackUnderflow;
    }
    let value = match interp.stack.pop() {
        Ok(v) => v,
        Err(e) => { return e },
    };
    let code_offset_word = match interp.stack.pop() {
        Ok(v) => v,
        Err(e) => { return e },
    };
    let len_word = match interp.stack.pop() {
        Ok(v) => v,
        Err(e) => { return e },
    };
    let len = match u256_as_usize(&len_word) {
        Some(l) => l,
        None => { return Return::OutOfGas },
    };
    let code: Vec<u8> = if len != 0 {
        let code_offset = match u256_as_usize(&code_offset_word) {
            Some(o) => o,
            None => { return Return::OutOfGas },
        };
        if code_offset > usize::MAX - len {
            return Return::OutOfGas;
        }
        let resized = interp.resize_memory(code_offset, len);
        if !matches!(resized, Return::Continue) {
            return resized;
        }
        vstd::slice::slice_to_vec(interp.memory.get_slice(code_offset, len))
    } else {
        Vec::new()
    };
    let scheme: CreateScheme = if is_create2 {
        let salt = match interp.stack.pop() {
            Ok(v) => v,
            Err(e) => { return e },
        };
        let cost = match create2_cost(len as u64) {
            Some(c) => c,
            None => { return Return::OutOfGas },
        };
        if !interp.gas.record_cost(cost) {
            return Return::OutOfGas;
        }
        CreateScheme::Create2 { salt }
    } else {
        if !interp.gas.record_cost(gas::CREATE) {
            return Return::OutOfGas;
        }
        CreateScheme::Create
    };
    proof {
        interp.gas.lemma_wf();
    }
    let remaining = interp.gas.remaining();
    let gas_limit = forwarded_gas(spec_id, remaining, remaining);
    if !interp.gas.record_cost(gas_limit) {
        return Return::OutOfGas;
    }
    let caller = interp.contract.address;
    let mut create_input = CreateInputs {
        caller,
        scheme,
        value,
        init_code: code,
        gas_limit,
    };
    let (reason, created, child_gas, return_data) = host.create(&mut create_input);
    let child_remaining = child_gas.remaining();
    let child_refunded = child_gas.refunded();
    apply_create_result(
        interp,
        reason,
        created,
        child_remaining,
        child_refunded,
        gas_limit,
        return_data,
    )
}

} // verus!
