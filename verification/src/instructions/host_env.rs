//! Opcodes that read the transaction and block environment from the host.
//! The environment is the host's to choose, so each contract pins the shape
//! of the stack change; which word arrives is the host's answer.

use vstd::prelude::*;

use primitive_types::U256;

use crate::host::Host;
use crate::interpreter::{only_stack_changed, Interpreter};
use crate::ret::Return;
use crate::stack::STACK_LIMIT;

verus! {

/// Push one host-supplied word: the shared shape of every environment
/// opcode.
fn push_env_word(interp: &mut Interpreter, word: U256) -> (r: Return)
    requires
        old(interp).wf_base(),
    ensures
        final(interp).wf_base(),
        only_stack_changed(*old(interp), *final(interp)),
        old(interp).stack@.len() >= STACK_LIMIT ==> r == Return::StackOverflow && final(interp).stack@ == old(interp).stack@,
        old(interp).stack@.len() < STACK_LIMIT ==> r == Return::Continue && final(interp).stack@
            == old(interp).stack@.push(crate::u256::u256_nat(word)),
{
    interp.stack.push(word)
}

/// `CHAINID`.
pub fn chainid<H: Host>(interp: &mut Interpreter, host: &mut H) -> (r: Return)
    requires
        old(interp).wf_base(),
    ensures
        final(interp).wf_base(),
        only_stack_changed(*old(interp), *final(interp)),
        old(interp).stack@.len() >= STACK_LIMIT ==> r == Return::StackOverflow && final(interp).stack@ == old(interp).stack@,
        old(interp).stack@.len() < STACK_LIMIT ==> r == Return::Continue && final(interp).stack@.len() == old(interp).stack@.len() + 1 && final(interp).stack@.drop_last() == old(interp).stack@,
{
    let env = host.env();
    push_env_word(interp, env.cfg.chain_id)
}

/// `COINBASE`.
pub fn coinbase<H: Host>(interp: &mut Interpreter, host: &mut H) -> (r: Return)
    requires
        old(interp).wf_base(),
    ensures
        final(interp).wf_base(),
        only_stack_changed(*old(interp), *final(interp)),
        old(interp).stack@.len() >= STACK_LIMIT ==> r == Return::StackOverflow && final(interp).stack@ == old(interp).stack@,
        old(interp).stack@.len() < STACK_LIMIT ==> r == Return::Continue && final(interp).stack@.len() == old(interp).stack@.len() + 1 && final(interp).stack@.drop_last() == old(interp).stack@,
{
    let env = host.env();
    push_env_word(interp, env.block.coinbase.to_word())
}

/// `TIMESTAMP`.
pub fn timestamp<H: Host>(interp: &mut Interpreter, host: &mut H) -> (r: Return)
    requires
        old(interp).wf_base(),
    ensures
        final(interp).wf_base(),
        only_stack_changed(*old(interp), *final(interp)),
        old(interp).stack@.len() >= STACK_LIMIT ==> r == Return::StackOverflow && final(interp).stack@ == old(interp).stack@,
        old(interp).stack@.len() < STACK_LIMIT ==> r == Return::Continue && final(interp).stack@.len() == old(interp).stack@.len() + 1 && final(interp).stack@.drop_last() == old(interp).stack@,
{
    let env = host.env();
    push_env_word(interp, env.block.timestamp)
}

/// `NUMBER`.
pub fn number<H: Host>(interp: &mut Interpreter, host: &mut H) -> (r: Return)
    requires
        old(interp).wf_base(),
    ensures
        final(interp).wf_base(),
        only_stack_changed(*old(interp), *final(interp)),
        old(interp).stack@.len() >= STACK_LIMIT ==> r == Return::StackOverflow && final(interp).stack@ == old(interp).stack@,
        old(interp).stack@.len() < STACK_LIMIT ==> r == Return::Continue && final(interp).stack@.len() == old(interp).stack@.len() + 1 && final(interp).stack@.drop_last() == old(interp).stack@,
{
    let env = host.env();
    push_env_word(interp, env.block.number)
}

/// `DIFFICULTY`.
pub fn difficulty<H: Host>(interp: &mut Interpreter, host: &mut H) -> (r: Return)
    requires
        old(interp).wf_base(),
    ensures
        final(interp).wf_base(),
        only_stack_changed(*old(interp), *final(interp)),
        old(interp).stack@.len() >= STACK_LIMIT ==> r == Return::StackOverflow && final(interp).stack@ == old(interp).stack@,
        old(interp).stack@.len() < STACK_LIMIT ==> r == Return::Continue && final(interp).stack@.len() == old(interp).stack@.len() + 1 && final(interp).stack@.drop_last() == old(interp).stack@,
{
    let env = host.env();
    push_env_word(interp, env.block.difficulty)
}

/// `GASLIMIT`.
pub fn gaslimit<H: Host>(interp: &mut Interpreter, host: &mut H) -> (r: Return)
    requires
        old(interp).wf_base(),
    ensures
        final(interp).wf_base(),
        only_stack_changed(*old(interp), *final(interp)),
        old(interp).stack@.len() >= STACK_LIMIT ==> r == Return::StackOverflow && final(interp).stack@ == old(interp).stack@,
        old(interp).stack@.len() < STACK_LIMIT ==> r == Return::Continue && final(interp).stack@.len() == old(interp).stack@.len() + 1 && final(interp).stack@.drop_last() == old(interp).stack@,
{
    let env = host.env();
    push_env_word(interp, env.block.gas_limit)
}

/// `GASPRICE`: the effective per-gas price of the transaction.
pub fn gasprice<H: Host>(interp: &mut Interpreter, host: &mut H) -> (r: Return)
    requires
        old(interp).wf_base(),
    ensures
        final(interp).wf_base(),
        only_stack_changed(*old(interp), *final(interp)),
        old(interp).stack@.len() >= STACK_LIMIT ==> r == Return::StackOverflow && final(interp).stack@ == old(interp).stack@,
        old(interp).stack@.len() < STACK_LIMIT ==> r == Return::Continue && final(interp).stack@.len() == old(interp).stack@.len() + 1 && final(interp).stack@.drop_last() == old(interp).stack@,
{
    let env = host.env();
    let price = env.effective_gas_price();
    push_env_word(interp, price)
}

/// `BASEFEE`.
pub fn basefee<H: Host>(interp: &mut Interpreter, host: &mut H) -> (r: Return)
    requires
        old(interp).wf_base(),
    ensures
        final(interp).wf_base(),
        only_stack_changed(*old(interp), *final(interp)),
        old(interp).stack@.len() >= STACK_LIMIT ==> r == Return::StackOverflow && final(interp).stack@ == old(interp).stack@,
        old(interp).stack@.len() < STACK_LIMIT ==> r == Return::Continue && final(interp).stack@.len() == old(interp).stack@.len() + 1 && final(interp).stack@.drop_last() == old(interp).stack@,
{
    let env = host.env();
    push_env_word(interp, env.block.basefee)
}

/// `ORIGIN`: the transaction sender.
pub fn origin<H: Host>(interp: &mut Interpreter, host: &mut H) -> (r: Return)
    requires
        old(interp).wf_base(),
    ensures
        final(interp).wf_base(),
        only_stack_changed(*old(interp), *final(interp)),
        old(interp).stack@.len() >= STACK_LIMIT ==> r == Return::StackOverflow && final(interp).stack@ == old(interp).stack@,
        old(interp).stack@.len() < STACK_LIMIT ==> r == Return::Continue && final(interp).stack@.len() == old(interp).stack@.len() + 1 && final(interp).stack@.drop_last() == old(interp).stack@,
{
    let env = host.env();
    push_env_word(interp, env.tx.caller.to_word())
}

} // verus!
