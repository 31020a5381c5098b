//! `SHA3` and the opcodes over the frame's own inputs: identities, value,
//! code and calldata windows, and the return-data buffer.

use vstd::prelude::*;

use primitive_types::U256;
use sha3::{Digest, Keccak256};

use crate::gas::{copy_cost_spec, sha3_cost, sha3_cost_spec, verylowcopy_cost};
use crate::interpreter::{
    can_grow_memory_with, mem_expansion_cost, only_stack_and_gas_changed, only_stack_changed,
    only_stack_memory_gas_changed, zero_extended, Interpreter,
};
use crate::ret::Return;
use crate::stack::STACK_LIMIT;
use crate::u256::{be_nat, make_u256, u256_as_usize, u256_as_usize_saturated, u256_from_be,
    u256_nat};

verus! {

/// The Keccak-256 digest of a byte string, a function of the bytes alone.
pub uninterp spec fn keccak256_of(s: Seq<u8>) -> Seq<u8>;

/// Relies on `sha3::Keccak256` (through the `Digest` trait): the 32-byte
/// Keccak-256 hash of the input, depending on the input bytes alone.
#[verifier::external_body]
fn keccak256(data: &[u8]) -> (r: Vec<u8>)
    ensures
        r@ == keccak256_of(data@),
        r@.len() == 32,
{
    Keccak256::digest(data).to_vec()
}

/// The well-known Keccak-256 digest of the empty byte string, as a word.
pub open spec fn keccak_empty_word() -> nat {
    0xc5d2460186f7233c927e7db2dcc703c0e500b653ca82273b7bfad8045d85a470nat
}

/// `SHA3`: hash a memory range; the empty range hashes to the well-known
/// constant and touches nothing.
pub fn sha3(interp: &mut Interpreter) -> (r: Return)
    requires
        old(interp).wf_base(),
    ensures
        final(interp).wf_base(),
        only_stack_memory_gas_changed(*old(interp), *final(interp)),
        final(interp).gas.remaining_spec() <= old(interp).gas.remaining_spec(),
        final(interp).gas.limit_spec() == old(interp).gas.limit_spec(),
        final(interp).memory@.len() >= old(interp).memory@.len(),
        old(interp).stack@.len() < 2 ==> r == Return::StackUnderflow && *final(interp) == *old(interp),
        r != Return::Continue ==> final(interp).memory@ == old(interp).memory@,
        old(interp).stack@.len() >= 2 ==> (r == Return::Continue <==> ({
            let from = old(interp).stack@.last();
            let len = old(interp).stack@[old(interp).stack@.len() - 2];
            &&& len <= usize::MAX
            &&& sha3_cost_spec(len) is Some
            &&& sha3_cost_spec(len)->0 <= old(interp).gas.remaining_spec()
            &&& (len == 0 || (from <= usize::MAX - len && can_grow_memory_with(
                *old(interp),
                from,
                len,
                (old(interp).gas.remaining_spec() - sha3_cost_spec(len)->0) as nat,
            )))
        })),
        (r == Return::StackUnderflow <==> old(interp).stack@.len() < 2),
        old(interp).stack@.len() >= 2 ==> ({
            let from = old(interp).stack@.last();
            let len = old(interp).stack@[old(interp).stack@.len() - 2];
            &&& (len > usize::MAX ==> r == Return::OutOfGas)
            &&& (len <= usize::MAX && (sha3_cost_spec(len) is None || sha3_cost_spec(len)->0 > old(interp).gas.remaining_spec()) ==> r == Return::OutOfGas)
            &&& (len > usize::MAX || sha3_cost_spec(len) is None || sha3_cost_spec(len)->0 > old(interp).gas.remaining_spec() ==> final(interp).gas == old(interp).gas)
            &&& (len <= usize::MAX && sha3_cost_spec(len) is Some && sha3_cost_spec(len)->0 <= old(interp).gas.remaining_spec() && len > 0 && from > usize::MAX - len ==> r
                == Return::OutOfGas && final(interp).gas.remaining_spec() == old(interp).gas.remaining_spec() - sha3_cost_spec(len)->0)
            &&& (len <= usize::MAX && sha3_cost_spec(len) is Some && sha3_cost_spec(len)->0 <= old(interp).gas.remaining_spec() && len > 0 && from <= usize::MAX - len
                && !can_grow_memory_with(
                *old(interp),
                from,
                len,
                (old(interp).gas.remaining_spec() - sha3_cost_spec(len)->0) as nat,
            ) ==> r == crate::interpreter::grow_fail_code(
                old(interp).memory@.len() as nat,
                old(interp).memory_limit as nat,
                from,
                len,
            ) && final(interp).gas.remaining_spec() == old(interp).gas.remaining_spec()
                - sha3_cost_spec(len)->0)
        }),
        old(interp).stack@.len() >= 2 && r != Return::Continue && r != Return::StackUnderflow
            ==> final(interp).stack@ == old(interp).stack@.drop_last().drop_last(),
        r == Return::Continue ==> ({
            let from = old(interp).stack@.last();
            let len = old(interp).stack@[old(interp).stack@.len() - 2];
            &&& old(interp).stack@.len() >= 2
            &&& (len != 0 ==> final(interp).memory@.len() == crate::interpreter::grown_len(
                old(interp).memory@.len() as nat,
                from,
                len,
            ))
            &&& final(interp).memory@ == zero_extended(
                old(interp).memory@,
                final(interp).memory@.len() as nat,
            )
            &&& final(interp).gas.remaining_spec() == old(interp).gas.remaining_spec()
                - sha3_cost_spec(len)->0 - mem_expansion_cost(
                old(interp).memory@.len() as nat,
                final(interp).memory@.len() as nat,
            )
            &&& (len == 0 ==> final(interp).memory@ == old(interp).memory@ && final(interp).stack@
                == old(interp).stack@.drop_last().drop_last().push(keccak_empty_word()))
            &&& (len != 0 ==> from + len <= final(interp).memory@.len() && final(interp).stack@
                == old(interp).stack@.drop_last().drop_last().push(
                be_nat(
                    keccak256_of(
                        final(interp).memory@.subrange(from as int, (from + len) as int),
                    ),
                ),
            ))
        }),
{
    if interp.stack.len() < 2 {
        return Return::StackUnderflow;
    }
    let from_word = match interp.stack.pop() {
        Ok(v) => v,
        Err(e) => { return e },
    };
    let len_word = match interp.stack.pop() {
        Ok(v) => v,
        Err(e) => { return e },
    };
    let len = match u256_as_usize(&len_word) {
        Some(l) => l,
        None => { return Return::OutOfGas },
    };
    let cost = match sha3_cost(len as u64) {
        Some(c) => c,
        None => { return Return::OutOfGas },
    };
    if !interp.gas.record_cost(cost) {
        return Return::OutOfGas;
    }
    if len == 0 {
        let word = crate::u256::u256_from_limbs(
            0x7bfad8045d85a470,
            0xe500b653ca82273b,
            0x927e7db2dcc703c0,
            0xc5d2460186f7233c,
        );
        return interp.stack.push(word);
    }
    let from = match u256_as_usize(&from_word) {
        Some(f) => f,
        None => { return Return::OutOfGas },
    };
    if from > usize::MAX - len {
        return Return::OutOfGas;
    }
    let resized = interp.resize_memory(from, len);
    if !matches!(resized, Return::Continue) {
        return resized;
    }
    let digest = keccak256(interp.memory.get_slice(from, len));
    let word = u256_from_be(digest.as_slice());
    interp.stack.push(word)
}

/// `ADDRESS`: the account this frame runs as.
pub fn address(interp: &mut Interpreter) -> (r: Return)
    requires
        old(interp).wf_base(),
    ensures
        final(interp).wf_base(),
        only_stack_changed(*old(interp), *final(interp)),
        old(interp).stack@.len() >= STACK_LIMIT ==> r == Return::StackOverflow && final(interp).stack@ == old(interp).stack@,
        old(interp).stack@.len() < STACK_LIMIT ==> r == Return::Continue && final(interp).stack@
            == old(interp).stack@.push(old(interp).contract.address@),
{
    let word = interp.contract.address.to_word();
    interp.stack.push(word)
}

/// `CALLER`.
pub fn caller(interp: &mut Interpreter) -> (r: Return)
    requires
        old(interp).wf_base(),
    ensures
        final(interp).wf_base(),
        only_stack_changed(*old(interp), *final(interp)),
        old(interp).stack@.len() >= STACK_LIMIT ==> r == Return::StackOverflow && final(interp).stack@ == old(interp).stack@,
        old(interp).stack@.len() < STACK_LIMIT ==> r == Return::Continue && final(interp).stack@
            == old(interp).stack@.push(old(interp).contract.caller@),
{
    let word = interp.contract.caller.to_word();
    interp.stack.push(word)
}

/// `CALLVALUE`.
pub fn callvalue(interp: &mut Interpreter) -> (r: Return)
    requires
        old(interp).wf_base(),
    ensures
        final(interp).wf_base(),
        only_stack_changed(*old(interp), *final(interp)),
        old(interp).stack@.len() >= STACK_LIMIT ==> r == Return::StackOverflow && final(interp).stack@ == old(interp).stack@,
        old(interp).stack@.len() < STACK_LIMIT ==> r == Return::Continue && final(interp).stack@
            == old(interp).stack@.push(u256_nat(old(interp).contract.value)),
{
    let word = interp.contract.value;
    interp.stack.push(word)
}

/// `CODESIZE`: the real (unpadded) code length.
pub fn codesize(interp: &mut Interpreter) -> (r: Return)
    requires
        old(interp).wf_base(),
    ensures
        final(interp).wf_base(),
        only_stack_changed(*old(interp), *final(interp)),
        old(interp).stack@.len() >= STACK_LIMIT ==> r == Return::StackOverflow && final(interp).stack@ == old(interp).stack@,
        old(interp).stack@.len() < STACK_LIMIT ==> r == Return::Continue && final(interp).stack@
            == old(interp).stack@.push(old(interp).contract.bytecode.orig_len_spec()),
{
    let size = interp.contract.bytecode.len();
    interp.stack.push(make_u256(size as u64))
}

/// `CODECOPY`: copy a window of the real code into memory, zero-padded
/// past its end.
pub fn codecopy(interp: &mut Interpreter) -> (r: Return)
    requires
        old(interp).wf_base(),
    ensures
        final(interp).wf_base(),
        only_stack_memory_gas_changed(*old(interp), *final(interp)),
        final(interp).gas.remaining_spec() <= old(interp).gas.remaining_spec(),
        final(interp).gas.limit_spec() == old(interp).gas.limit_spec(),
        final(interp).memory@.len() >= old(interp).memory@.len(),
        old(interp).stack@.len() < 3 ==> r == Return::StackUnderflow && final(interp).stack@ == old(interp).stack@,
        old(interp).stack@.len() >= 3 ==> (r == Return::Continue <==> ({
            let mem_off = old(interp).stack@.last();
            let len = old(interp).stack@[old(interp).stack@.len() - 3];
            &&& len <= usize::MAX
            &&& copy_cost_spec(len) is Some
            &&& copy_cost_spec(len)->0 <= old(interp).gas.remaining_spec()
            &&& (len == 0 || (mem_off <= usize::MAX - len && can_grow_memory_with(
                *old(interp),
                mem_off,
                len,
                (old(interp).gas.remaining_spec() - copy_cost_spec(len)->0) as nat,
            )))
        })),
        r == Return::Continue ==> ({
            let mem_off = old(interp).stack@.last();
            let code_off = old(interp).stack@[old(interp).stack@.len() - 2];
            let len = old(interp).stack@[old(interp).stack@.len() - 3];
            let code = old(interp).contract.bytecode.code_spec().subrange(
                0,
                old(interp).contract.bytecode.orig_len_spec() as int,
            );
            &&& old(interp).stack@.len() >= 3
            &&& final(interp).stack@ == old(interp).stack@.drop_last().drop_last().drop_last()
            &&& (len != 0 ==> mem_off + len <= final(interp).memory@.len() && forall|j: int|
                mem_off <= j < mem_off + len ==> final(interp).memory@[j] == (if code_off + (j
                    - mem_off) < code.len() {
                    code[code_off + (j - mem_off)]
                } else {
                    0u8
                }))
            &&& (len == 0 ==> final(interp).memory@ == old(interp).memory@)
            &&& (forall|j: int|
                0 <= j < final(interp).memory@.len() && !(mem_off <= j < mem_off + len)
                    ==> final(interp).memory@[j] == (if j < old(interp).memory@.len() {
                    old(interp).memory@[j]
                } else {
                    0u8
                }))
            &&& final(interp).gas.remaining_spec() == old(interp).gas.remaining_spec()
                - copy_cost_spec(len)->0 - mem_expansion_cost(
                old(interp).memory@.len() as nat,
                final(interp).memory@.len() as nat,
            )
        }),
        r != Return::Continue ==> final(interp).memory@ == old(interp).memory@,
{
    if interp.stack.len() < 3 {
        return Return::StackUnderflow;
    }
    let mem_off_word = match interp.stack.pop() {
        Ok(v) => v,
        Err(e) => { return e },
    };
    let code_off_word = match interp.stack.pop() {
        Ok(v) => v,
        Err(e) => { return e },
    };
    let len_word = match interp.stack.pop() {
        Ok(v) => v,
        Err(e) => { return e },
    };
    let len = match u256_as_usize(&len_word) {
        Some(l) => l,
        None => { return Return::OutOfGas },
    };
    let cost = match verylowcopy_cost(len as u64) {
        Some(c) => c,
        None => { return Return::OutOfGas },
    };
    if !interp.gas.record_cost(cost) {
        return Return::OutOfGas;
    }
    if len == 0 {
        return Return::Continue;
    }
    let mem_off = match u256_as_usize(&mem_off_word) {
        Some(o) => o,
        None => { return Return::OutOfGas },
    };
    let code_off = u256_as_usize_saturated(&code_off_word);
    if mem_off > usize::MAX - len {
        return Return::OutOfGas;
    }
    let resized = interp.resize_memory(mem_off, len);
    if !matches!(resized, Return::Continue) {
        return resized;
    }
    let clen = interp.contract.bytecode.len();
    proof {
        assert(clen <= usize::MAX);
    }
    let (contract, memory) = (&interp.contract, &mut interp.memory);
    memory.set_data(mem_off, code_off, len, contract.bytecode.original_slice());
    proof {
        interp.contract.bytecode.lemma_wf();
        let co = u256_nat(code_off_word);
        let mo = mem_off as int;
        let code = old(interp).contract.bytecode.code_spec().subrange(
            0,
            old(interp).contract.bytecode.orig_len_spec() as int,
        );
        assert forall|j: int| mo <= j < mo + len implies interp.memory@[j] == (if co + (j - mo)
            < code.len() {
            code[co + (j - mo)]
        } else {
            0u8
        }) by {
            assert(interp.memory@[j] == (if code_off + (j - mo) < code.len() {
                code[code_off + (j - mo)]
            } else {
                0u8
            }));
            if co > usize::MAX {
                assert(co + (j - mo) >= code.len());
                assert(code_off + (j - mo) >= code.len());
            }
        }
    }
    Return::Continue
}

/// A 32-byte window of a byte string starting at `index`, zero-padded past
/// the string's end.
fn window32(data: &Vec<u8>, index: usize) -> (r: Vec<u8>)
    ensures
        r@.len() == 32,
        forall|k: int|
            0 <= k < 32 ==> r@[k] == (if index + k < data@.len() {
                data@[index + k]
            } else {
                0u8
            }),
{
    let mut window: Vec<u8> = Vec::new();
    let mut j: usize = 0;
    let dlen = data.len();
    while j < 32
        invariant
            j <= 32,
            window@.len() == j,
            dlen == data@.len(),
            forall|k: int|
                0 <= k < j ==> window@[k] == (if index + k < data@.len() {
                    data@[index + k]
                } else {
                    0u8
                }),
        decreases 32 - j,
    {
        let b: u8 = if index < dlen && j < dlen - index {
            data[index + j]
        } else {
            0u8
        };
        window.push(b);
        j = j + 1;
    }
    window
}

/// `CALLDATALOAD`: a 32-byte window of calldata, zero-padded past its end.
pub fn calldataload(interp: &mut Interpreter) -> (r: Return)
    requires
        old(interp).wf_base(),
    ensures
        final(interp).wf_base(),
        only_stack_changed(*old(interp), *final(interp)),
        old(interp).stack@.len() < 1 ==> r == Return::StackUnderflow && final(interp).stack@ == old(interp).stack@,
        old(interp).stack@.len() >= 1 ==> r == Return::Continue && final(interp).stack@ == old(interp).stack@.drop_last().push(
            be_nat(
                Seq::<u8>::new(
                    32,
                    |j: int|
                        if old(interp).stack@.last() + j < old(interp).contract.input@.len() {
                            old(interp).contract.input@[old(interp).stack@.last() + j]
                        } else {
                            0u8
                        },
                ),
            ),
        ),
{
    let index_word = match interp.stack.pop() {
        Ok(v) => v,
        Err(e) => { return e },
    };
    let index = u256_as_usize_saturated(&index_word);
    let ilen = interp.contract.input.len();
    let window = window32(&interp.contract.input, index);
    let word = u256_from_be(window.as_slice());
    proof {
        assert(window@ =~= Seq::<u8>::new(
            32,
            |j: int|
                if u256_nat(index_word) + j < old(interp).contract.input@.len() {
                    old(interp).contract.input@[u256_nat(index_word) + j]
                } else {
                    0u8
                },
        ));
    }
    interp.stack.push(word)
}

/// `CALLDATASIZE`.
pub fn calldatasize(interp: &mut Interpreter) -> (r: Return)
    requires
        old(interp).wf_base(),
    ensures
        final(interp).wf_base(),
        only_stack_changed(*old(interp), *final(interp)),
        old(interp).stack@.len() >= STACK_LIMIT ==> r == Return::StackOverflow && final(interp).stack@ == old(interp).stack@,
        old(interp).stack@.len() < STACK_LIMIT ==> r == Return::Continue && final(interp).stack@
            == old(interp).stack@.push(old(interp).contract.input@.len() as nat),
{
    let len = interp.contract.input.len();
    interp.stack.push(make_u256(len as u64))
}

/// `CALLDATACOPY`: copy a calldata window into memory, zero-padded past
/// its end.
pub fn calldatacopy(interp: &mut Interpreter) -> (r: Return)
    requires
        old(interp).wf_base(),
    ensures
        final(interp).wf_base(),
        only_stack_memory_gas_changed(*old(interp), *final(interp)),
        final(interp).gas.remaining_spec() <= old(interp).gas.remaining_spec(),
        final(interp).gas.limit_spec() == old(interp).gas.limit_spec(),
        final(interp).memory@.len() >= old(interp).memory@.len(),
        old(interp).stack@.len() < 3 ==> r == Return::StackUnderflow && final(interp).stack@ == old(interp).stack@,
        old(interp).stack@.len() >= 3 ==> (r == Return::Continue <==> ({
            let mem_off = old(interp).stack@.last();
            let len = old(interp).stack@[old(interp).stack@.len() - 3];
            &&& len <= usize::MAX
            &&& copy_cost_spec(len) is Some
            &&& copy_cost_spec(len)->0 <= old(interp).gas.remaining_spec()
            &&& (len == 0 || (mem_off <= usize::MAX - len && can_grow_memory_with(
                *old(interp),
                mem_off,
                len,
                (old(interp).gas.remaining_spec() - copy_cost_spec(len)->0) as nat,
            )))
        })),
        r == Return::Continue ==> ({
            let mem_off = old(interp).stack@.last();
            let data_off = old(interp).stack@[old(interp).stack@.len() - 2];
            let len = old(interp).stack@[old(interp).stack@.len() - 3];
            let input = old(interp).contract.input@;
            &&& old(interp).stack@.len() >= 3
            &&& final(interp).stack@ == old(interp).stack@.drop_last().drop_last().drop_last()
            &&& (len != 0 ==> mem_off + len <= final(interp).memory@.len() && forall|j: int|
                mem_off <= j < mem_off + len ==> final(interp).memory@[j] == (if data_off + (j
                    - mem_off) < input.len() {
                    input[data_off + (j - mem_off)]
                } else {
                    0u8
                }))
            &&& (len == 0 ==> final(interp).memory@ == old(interp).memory@)
            &&& (forall|j: int|
                0 <= j < final(interp).memory@.len() && !(mem_off <= j < mem_off + len)
                    ==> final(interp).memory@[j] == (if j < old(interp).memory@.len() {
                    old(interp).memory@[j]
                } else {
                    0u8
                }))
            &&& final(interp).gas.remaining_spec() == old(interp).gas.remaining_spec()
                - copy_cost_spec(len)->0 - mem_expansion_cost(
                old(interp).memory@.len() as nat,
                final(interp).memory@.len() as nat,
            )
        }),
        r != Return::Continue ==> final(interp).memory@ == old(interp).memory@,
{
    if interp.stack.len() < 3 {
        return Return::StackUnderflow;
    }
    let mem_off_word = match interp.stack.pop() {
        Ok(v) => v,
        Err(e) => { return e },
    };
    let data_off_word = match interp.stack.pop() {
        Ok(v) => v,
        Err(e) => { return e },
    };
    let len_word = match interp.stack.pop() {
        Ok(v) => v,
        Err(e) => { return e },
    };
    let len = match u256_as_usize(&len_word) {
        Some(l) => l,
        None => { return Return::OutOfGas },
    };
    let cost = match verylowcopy_cost(len as u64) {
        Some(c) => c,
        None => { return Return::OutOfGas },
    };
    if !interp.gas.record_cost(cost) {
        return Return::OutOfGas;
    }
    if len == 0 {
        return Return::Continue;
    }
    let mem_off = match u256_as_usize(&mem_off_word) {
        Some(o) => o,
        None => { return Return::OutOfGas },
    };
    let data_off = u256_as_usize_saturated(&data_off_word);
    if mem_off > usize::MAX - len {
        return Return::OutOfGas;
    }
    let resized = interp.resize_memory(mem_off, len);
    if !matches!(resized, Return::Continue) {
        return resized;
    }
    let ilen = interp.contract.input.len();
    proof {
        assert(ilen <= usize::MAX);
    }
    let (contract, memory) = (&interp.contract, &mut interp.memory);
    memory.set_data(mem_off, data_off, len, contract.input.as_slice());
    Return::Continue
}

/// `RETURNDATASIZE`.
pub fn returndatasize(interp: &mut Interpreter) -> (r: Return)
    requires
        old(interp).wf_base(),
    ensures
        final(interp).wf_base(),
        only_stack_changed(*old(interp), *final(interp)),
        old(interp).stack@.len() >= STACK_LIMIT ==> r == Return::StackOverflow && final(interp).stack@ == old(interp).stack@,
        old(interp).stack@.len() < STACK_LIMIT ==> r == Return::Continue && final(interp).stack@
            == old(interp).stack@.push(old(interp).return_data_buffer@.len() as nat),
{
    let len = interp.return_data_buffer.len();
    interp.stack.push(make_u256(len as u64))
}

/// `RETURNDATACOPY`: copy out of the return-data buffer; reading past its
/// end is `OutOfOffset`.
pub fn returndatacopy(interp: &mut Interpreter) -> (r: Return)
    requires
        old(interp).wf_base(),
    ensures
        final(interp).wf_base(),
        only_stack_memory_gas_changed(*old(interp), *final(interp)),
        final(interp).gas.remaining_spec() <= old(interp).gas.remaining_spec(),
        final(interp).gas.limit_spec() == old(interp).gas.limit_spec(),
        final(interp).memory@.len() >= old(interp).memory@.len(),
        old(interp).stack@.len() < 3 ==> r == Return::StackUnderflow && final(interp).stack@ == old(interp).stack@,
        old(interp).stack@.len() >= 3 ==> (r == Return::Continue <==> ({
            let mem_off = old(interp).stack@.last();
            let data_off = old(interp).stack@[old(interp).stack@.len() - 2];
            let len = old(interp).stack@[old(interp).stack@.len() - 3];
            &&& len <= usize::MAX
            &&& copy_cost_spec(len) is Some
            &&& copy_cost_spec(len)->0 <= old(interp).gas.remaining_spec()
            &&& mem_off <= usize::MAX
            &&& (len == 0 || mem_off <= usize::MAX - len)
            &&& can_grow_memory_with(
                *old(interp),
                mem_off,
                len,
                (old(interp).gas.remaining_spec() - copy_cost_spec(len)->0) as nat,
            )
            &&& data_off + len <= old(interp).return_data_buffer@.len()
        })),
        old(interp).stack@.len() >= 3 ==> (r == Return::OutOfOffset <==> ({
            let mem_off = old(interp).stack@.last();
            let data_off = old(interp).stack@[old(interp).stack@.len() - 2];
            let len = old(interp).stack@[old(interp).stack@.len() - 3];
            &&& len <= usize::MAX
            &&& copy_cost_spec(len) is Some
            &&& copy_cost_spec(len)->0 <= old(interp).gas.remaining_spec()
            &&& mem_off <= usize::MAX
            &&& (len == 0 || mem_off <= usize::MAX - len)
            &&& can_grow_memory_with(
                *old(interp),
                mem_off,
                len,
                (old(interp).gas.remaining_spec() - copy_cost_spec(len)->0) as nat,
            )
            &&& data_off + len > old(interp).return_data_buffer@.len()
        })),
        r == Return::Continue || r == Return::OutOfOffset ==> old(interp).stack@.len() >= 3
            && final(interp).stack@ == old(interp).stack@.drop_last().drop_last().drop_last(),
        r == Return::Continue ==> ({
            let mem_off = old(interp).stack@.last();
            let data_off = old(interp).stack@[old(interp).stack@.len() - 2];
            let len = old(interp).stack@[old(interp).stack@.len() - 3];
            let buf = old(interp).return_data_buffer@;
            &&& (len != 0 ==> mem_off + len <= final(interp).memory@.len() && forall|j: int|
                mem_off <= j < mem_off + len ==> final(interp).memory@[j] == buf[data_off + (j
                    - mem_off)])
            &&& (forall|j: int|
                0 <= j < final(interp).memory@.len() && !(mem_off <= j < mem_off + len)
                    ==> final(interp).memory@[j] == (if j < old(interp).memory@.len() {
                    old(interp).memory@[j]
                } else {
                    0u8
                }))
            &&& final(interp).gas.remaining_spec() == old(interp).gas.remaining_spec()
                - copy_cost_spec(len)->0 - mem_expansion_cost(
                old(interp).memory@.len() as nat,
                final(interp).memory@.len() as nat,
            )
        }),
{
    if interp.stack.len() < 3 {
        return Return::StackUnderflow;
    }
    let mem_off_word = match interp.stack.pop() {
        Ok(v) => v,
        Err(e) => { return e },
    };
    let data_off_word = match interp.stack.pop() {
        Ok(v) => v,
        Err(e) => { return e },
    };
    let len_word = match interp.stack.pop() {
        Ok(v) => v,
        Err(e) => { return e },
    };
    let len = match u256_as_usize(&len_word) {
        Some(l) => l,
        None => { return Return::OutOfGas },
    };
    let cost = match verylowcopy_cost(len as u64) {
        Some(c) => c,
        None => { return Return::OutOfGas },
    };
    if !interp.gas.record_cost(cost) {
        return Return::OutOfGas;
    }
    let mem_off = match u256_as_usize(&mem_off_word) {
        Some(o) => o,
        None => { return Return::OutOfGas },
    };
    if len != 0 && mem_off > usize::MAX - len {
        return Return::OutOfGas;
    }
    let resized = interp.resize_memory(mem_off, len);
    if !matches!(resized, Return::Continue) {
        return resized;
    }
    let buf_len = interp.return_data_buffer.len();
    let data_off = match u256_as_usize(&data_off_word) {
        Some(d) => d,
        None => { return Return::OutOfOffset },
    };
    if data_off > usize::MAX - len || data_off + len > buf_len {
        return Return::OutOfOffset;
    }
    if len == 0 {
        return Return::Continue;
    }
    let (buffer, memory) = (&interp.return_data_buffer, &mut interp.memory);
    memory.set_data(mem_off, data_off, len, buffer.as_slice());
    Return::Continue
}

/// `GAS`: push the gas left, then charge the next block (this opcode ends
/// one).
pub fn gas(interp: &mut Interpreter) -> (r: Return)
    requires
        old(interp).wf_base(),
        1 <= old(interp).pc <= old(interp).contract.bytecode.code_spec().len(),
    ensures
        final(interp).wf_base(),
        only_stack_and_gas_changed(*old(interp), *final(interp)),
        final(interp).gas.remaining_spec() <= old(interp).gas.remaining_spec(),
        final(interp).gas.limit_spec() == old(interp).gas.limit_spec(),
        old(interp).stack@.len() >= STACK_LIMIT ==> r == Return::StackOverflow && final(interp).stack@ == old(interp).stack@,
        old(interp).stack@.len() < STACK_LIMIT ==> ({
            let cost = old(interp).contract.bytecode.gas_blocks_spec()[old(interp).pc - 1];
            &&& final(interp).stack@ == old(interp).stack@.push(
                old(interp).gas.remaining_spec() as nat,
            )
            &&& (if cost <= old(interp).gas.remaining_spec() {
                r == Return::Continue && final(interp).gas.remaining_spec() == old(interp).gas.remaining_spec() - cost
            } else {
                r == Return::OutOfGas && final(interp).gas.remaining_spec() == old(interp).gas.remaining_spec()
            })
        }),
{
    let remaining = interp.gas.remaining();
    let ret = interp.stack.push(make_u256(remaining));
    if !matches!(ret, Return::Continue) {
        return ret;
    }
    let pc = interp.program_counter();
    interp.add_next_gas_block(pc - 1)
}

} // verus!
