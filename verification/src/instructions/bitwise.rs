//! Comparison and bitwise opcodes, including the arithmetic right shift on
//! two's-complement words.

use vstd::arithmetic::div_mod::{
    lemma_fundamental_div_mod, lemma_fundamental_div_mod_converse, lemma_mod_bound,
    lemma_small_mod,
};
use vstd::arithmetic::power2::pow2;
use vstd::prelude::*;

use primitive_types::U256;

use crate::instructions::arithmetic::{binop_stack, op1_of, op2_of};
use crate::instructions::i256::{is_neg, sint_of, two_compl, wrap_int, i256_lt};
use crate::interpreter::{only_stack_changed, Interpreter};
use crate::ret::Return;
use crate::u256::{
    and_nat, lemma_mod_mod_256, lemma_pow2_256_val, lemma_u256_limbs, lemma_u256_nat_bound, or_nat, u256_add,
    u256_bitand, u256_bitor, u256_bitxor, u256_from_limbs, u256_is_zero, u256_low_u64, u256_lt,
    u256_nat, u256_not, u256_one, u256_shl, u256_shr, u256_sub, u256_zero, w256, w64, xor_nat,
};

verus! {

/// `SLT`: signed less-than, pushing 1 or 0.
pub fn slt(interp: &mut Interpreter) -> (r: Return)
    requires
        old(interp).wf_base(),
    ensures
        final(interp).wf_base(),
        only_stack_changed(*old(interp), *final(interp)),
        old(interp).stack@.len() < 2 ==> r == Return::StackUnderflow && final(interp).stack@ == old(interp).stack@,
        old(interp).stack@.len() >= 2 ==> r == Return::Continue && final(interp).stack@
            == binop_stack(
            old(interp).stack@,
            if sint_of(op1_of(old(interp).stack@)) < sint_of(op2_of(old(interp).stack@)) {
                1nat
            } else {
                0nat
            },
        ),
{
    if interp.stack.len() < 2 {
        return Return::StackUnderflow;
    }
    let op1 = match interp.stack.pop() {
        Ok(v) => v,
        Err(e) => { return e },
    };
    let op2 = match interp.stack.pop() {
        Ok(v) => v,
        Err(e) => { return e },
    };
    let v = if i256_lt(&op1, &op2) {
        u256_one()
    } else {
        u256_zero()
    };
    interp.stack.push(v)
}

/// `SGT`: signed greater-than, pushing 1 or 0.
pub fn sgt(interp: &mut Interpreter) -> (r: Return)
    requires
        old(interp).wf_base(),
    ensures
        final(interp).wf_base(),
        only_stack_changed(*old(interp), *final(interp)),
        old(interp).stack@.len() < 2 ==> r == Return::StackUnderflow && final(interp).stack@ == old(interp).stack@,
        old(interp).stack@.len() >= 2 ==> r == Return::Continue && final(interp).stack@
            == binop_stack(
            old(interp).stack@,
            if sint_of(op1_of(old(interp).stack@)) > sint_of(op2_of(old(interp).stack@)) {
                1nat
            } else {
                0nat
            },
        ),
{
    if interp.stack.len() < 2 {
        return Return::StackUnderflow;
    }
    let op1 = match interp.stack.pop() {
        Ok(v) => v,
        Err(e) => { return e },
    };
    let op2 = match interp.stack.pop() {
        Ok(v) => v,
        Err(e) => { return e },
    };
    let v = if i256_lt(&op2, &op1) {
        u256_one()
    } else {
        u256_zero()
    };
    interp.stack.push(v)
}

/// `ISZERO`: 1 for the zero word, else 0.
pub fn iszero(interp: &mut Interpreter) -> (r: Return)
    requires
        old(interp).wf_base(),
    ensures
        final(interp).wf_base(),
        only_stack_changed(*old(interp), *final(interp)),
        old(interp).stack@.len() < 1 ==> r == Return::StackUnderflow && final(interp).stack@ == old(interp).stack@,
        old(interp).stack@.len() >= 1 ==> r == Return::Continue && final(interp).stack@ == old(interp).stack@.drop_last().push(
            if op1_of(old(interp).stack@) == 0 {
                1nat
            } else {
                0nat
            },
        ),
{
    if interp.stack.len() < 1 {
        return Return::StackUnderflow;
    }
    let op1 = match interp.stack.pop() {
        Ok(v) => v,
        Err(e) => { return e },
    };
    let v = if u256_is_zero(&op1) {
        u256_one()
    } else {
        u256_zero()
    };
    interp.stack.push(v)
}

/// `NOT`: bitwise complement, i.e. `2^256 - 1 - x`.
pub fn not(interp: &mut Interpreter) -> (r: Return)
    requires
        old(interp).wf_base(),
    ensures
        final(interp).wf_base(),
        only_stack_changed(*old(interp), *final(interp)),
        old(interp).stack@.len() < 1 ==> r == Return::StackUnderflow && final(interp).stack@ == old(interp).stack@,
        old(interp).stack@.len() >= 1 ==> r == Return::Continue && final(interp).stack@ == old(interp).stack@.drop_last().push((w256() - 1 - op1_of(old(interp).stack@)) as nat),
{
    if interp.stack.len() < 1 {
        return Return::StackUnderflow;
    }
    let op1 = match interp.stack.pop() {
        Ok(v) => v,
        Err(e) => { return e },
    };
    let v = u256_not(op1);
    proof {
        lemma_u256_nat_bound(op1);
        assert(v.0[0] == !op1.0[0] && v.0[1] == !op1.0[1] && v.0[2] == !op1.0[2] && v.0[3]
            == !op1.0[3]);
        assert(forall|x: u64| #[trigger] !x == 0xffffffffffffffffu64 - x) by (bit_vector);
    }
    interp.stack.push(v)
}

/// `BYTE`: the `i`-th most significant byte of `x`, 0 when `i >= 32`.
pub open spec fn byte_spec(i: nat, x: nat) -> nat {
    if i >= 32 {
        0
    } else {
        (x / pow2((8 * (31 - i)) as nat)) % 256
    }
}

/// `BYTE`.
pub fn byte(interp: &mut Interpreter) -> (r: Return)
    requires
        old(interp).wf_base(),
    ensures
        final(interp).wf_base(),
        only_stack_changed(*old(interp), *final(interp)),
        old(interp).stack@.len() < 2 ==> r == Return::StackUnderflow && final(interp).stack@ == old(interp).stack@,
        old(interp).stack@.len() >= 2 ==> r == Return::Continue && final(interp).stack@
            == binop_stack(
            old(interp).stack@,
            byte_spec(op1_of(old(interp).stack@), op2_of(old(interp).stack@)),
        ),
{
    if interp.stack.len() < 2 {
        return Return::StackUnderflow;
    }
    let op1 = match interp.stack.pop() {
        Ok(v) => v,
        Err(e) => { return e },
    };
    let op2 = match interp.stack.pop() {
        Ok(v) => v,
        Err(e) => { return e },
    };
    let thirty_two = u256_from_limbs(32, 0, 0, 0);
    let v = if u256_lt(&op1, &thirty_two) {
        proof {
            lemma_small_mod(u256_nat(op1), w64());
        }
        let i = u256_low_u64(&op1);
        let shifted = u256_shr(op2, (8 * (31 - i as usize)));
        let low = u256_low_u64(&shifted);
        proof {
            lemma_mod_mod_256(u256_nat(shifted));
        }
        u256_from_limbs(low % 256, 0, 0, 0)
    } else {
        u256_zero()
    };
    interp.stack.push(v)
}

/// `SHL`: shift left, dropping bits past the word width.
pub fn shl(interp: &mut Interpreter) -> (r: Return)
    requires
        old(interp).wf_base(),
    ensures
        final(interp).wf_base(),
        only_stack_changed(*old(interp), *final(interp)),
        old(interp).stack@.len() < 2 ==> r == Return::StackUnderflow && final(interp).stack@ == old(interp).stack@,
        old(interp).stack@.len() >= 2 ==> r == Return::Continue && final(interp).stack@
            == binop_stack(
            old(interp).stack@,
            if op1_of(old(interp).stack@) >= 256 {
                0nat
            } else {
                (op2_of(old(interp).stack@) * pow2(op1_of(old(interp).stack@))) % w256()
            },
        ),
{
    if interp.stack.len() < 2 {
        return Return::StackUnderflow;
    }
    let shift = match interp.stack.pop() {
        Ok(v) => v,
        Err(e) => { return e },
    };
    let value = match interp.stack.pop() {
        Ok(v) => v,
        Err(e) => { return e },
    };
    let two_fifty_six = u256_from_limbs(256, 0, 0, 0);
    let v = if u256_lt(&shift, &two_fifty_six) {
        proof {
            lemma_small_mod(u256_nat(shift), w64());
        }
        let s = u256_low_u64(&shift);
        u256_shl(value, s as usize)
    } else {
        u256_zero()
    };
    interp.stack.push(v)
}

/// `SHR`: logical shift right.
pub fn shr(interp: &mut Interpreter) -> (r: Return)
    requires
        old(interp).wf_base(),
    ensures
        final(interp).wf_base(),
        only_stack_changed(*old(interp), *final(interp)),
        old(interp).stack@.len() < 2 ==> r == Return::StackUnderflow && final(interp).stack@ == old(interp).stack@,
        old(interp).stack@.len() >= 2 ==> r == Return::Continue && final(interp).stack@
            == binop_stack(
            old(interp).stack@,
            if op1_of(old(interp).stack@) >= 256 {
                0nat
            } else {
                op2_of(old(interp).stack@) / pow2(op1_of(old(interp).stack@))
            },
        ),
{
    if interp.stack.len() < 2 {
        return Return::StackUnderflow;
    }
    let shift = match interp.stack.pop() {
        Ok(v) => v,
        Err(e) => { return e },
    };
    let value = match interp.stack.pop() {
        Ok(v) => v,
        Err(e) => { return e },
    };
    let two_fifty_six = u256_from_limbs(256, 0, 0, 0);
    let v = if u256_lt(&shift, &two_fifty_six) {
        proof {
            lemma_small_mod(u256_nat(shift), w64());
        }
        let s = u256_low_u64(&shift);
        u256_shr(value, s as usize)
    } else {
        u256_zero()
    };
    interp.stack.push(v)
}

/// `SAR`: arithmetic shift right, which is signed division by a power of
/// two rounded toward minus infinity; a shift of 256 or more leaves all
/// zeros or all ones by sign.
pub open spec fn sar_spec(shift: nat, x: nat) -> nat {
    if shift >= 256 {
        if sint_of(x) < 0 {
            (w256() - 1) as nat
        } else {
            0
        }
    } else {
        wrap_int(sint_of(x) / (pow2(shift) as int))
    }
}

/// `SAR`.
pub fn sar(interp: &mut Interpreter) -> (r: Return)
    requires
        old(interp).wf_base(),
    ensures
        final(interp).wf_base(),
        only_stack_changed(*old(interp), *final(interp)),
        old(interp).stack@.len() < 2 ==> r == Return::StackUnderflow && final(interp).stack@ == old(interp).stack@,
        old(interp).stack@.len() >= 2 ==> r == Return::Continue && final(interp).stack@
            == binop_stack(
            old(interp).stack@,
            sar_spec(op1_of(old(interp).stack@), op2_of(old(interp).stack@)),
        ),
{
    if interp.stack.len() < 2 {
        return Return::StackUnderflow;
    }
    let shift = match interp.stack.pop() {
        Ok(v) => v,
        Err(e) => { return e },
    };
    let value = match interp.stack.pop() {
        Ok(v) => v,
        Err(e) => { return e },
    };
    proof {
        lemma_pow2_256_val();
        lemma_u256_nat_bound(value);
    }
    let neg = is_neg(&value);
    let two_fifty_six = u256_from_limbs(256, 0, 0, 0);
    let v = if u256_lt(&shift, &two_fifty_six) {
        proof {
            lemma_small_mod(u256_nat(shift), w64());
        }
        let s = u256_low_u64(&shift) as usize;
        if neg {
            let w = two_compl(value);
            let shifted = u256_add(u256_shr(u256_sub(w, u256_one()), s), u256_one());
            let res = two_compl(shifted);
            proof {
                lemma_sar_neg(u256_nat(value), s as nat);
            }
            res
        } else {
            let res = u256_shr(value, s);
            proof {
                lemma_sar_pos(u256_nat(value), s as nat);
            }
            res
        }
    } else {
        if neg {
            let res = u256_not(u256_zero());
            proof {
                assert(forall|x: u64| x == 0u64 ==> !x == 0xffffffffffffffffu64) by (bit_vector);
                assert(u256_nat(res) == w256() - 1);
            }
            res
        } else {
            u256_zero()
        }
    };
    interp.stack.push(v)
}

/// A non-negative word shifted right arithmetically is plain division.
proof fn lemma_sar_pos(n: nat, s: nat)
    requires
        s < 256,
        n < w256(),
        sint_of(n) >= 0,
    ensures
        n / pow2(s) == sar_spec(s, n),
{
    lemma_pow2_256_val();
    vstd::arithmetic::power2::lemma_pow2_pos(s);
    vstd::arithmetic::div_mod::lemma_div_basics_5(n as int, pow2(s) as int);
    lemma_small_mod((n / pow2(s)) as nat, w256());
}

/// A negative word shifted right arithmetically: the ceiling-of-magnitude
/// construction equals floor division of the signed value. The chain of
/// facts mirrors the executable steps: negate, subtract one, shift, add
/// one, negate again.
proof fn lemma_sar_neg(n: nat, s: nat)
    requires
        s < 256,
        n < w256(),
        sint_of(n) < 0,
    ensures
        wrap_int(-(n as int)) == w256() - n,
        ({
            let w = (w256() - n) as nat;
            ((w + w256() - 1) as nat) % w256() == (w - 1) as nat
        }),
        ({
            let w = (w256() - n) as nat;
            let q = ((w - 1) as nat) / pow2(s);
            ((q + 1) % w256() == q + 1) && (wrap_int(-((q + 1) as int)) == sar_spec(s, n))
        }),
{
    lemma_pow2_256_val();
    let p = pow2(s) as int;
    vstd::arithmetic::power2::lemma_pow2_pos(s);
    let m = w256() as int;
    assert(n > 0);
    lemma_fundamental_div_mod_converse(-(n as int), m, -1, m - n);
    let w = m - n;
    assert(1 <= w <= two_pow_255_int());
    lemma_fundamental_div_mod_converse(w + m - 1, m, 1, w - 1);
    let q = (w - 1) / p;
    vstd::arithmetic::div_mod::lemma_div_pos_is_pos(w - 1, p);
    vstd::arithmetic::div_mod::lemma_div_basics_5(w - 1, p);
    lemma_small_mod((q + 1) as nat, w256());
    lemma_fundamental_div_mod((w - 1) as int, p);
    lemma_mod_bound((w - 1) as int, p);
    let r0 = (w - 1) % p;
    // -w == -(q+1)·p + (p - 1 - r0), a Euclidean decomposition
    assert((-(q + 1)) * p + (p - 1 - r0) == -w) by (nonlinear_arith)
        requires
            w - 1 == q * p + r0,
    ;
    lemma_fundamental_div_mod_converse(-w, p, -(q + 1), p - 1 - r0);
    assert(sint_of(n) == -w);
    assert(sint_of(n) / p == -(q + 1));
    lemma_fundamental_div_mod_converse(-(q + 1), m, -1, m - (q + 1));
    lemma_small_mod((m - (q + 1)) as nat, w256());
}

/// 2^255 as an `int`, for bounds inside proofs.
pub open spec fn two_pow_255_int() -> int {
    crate::u256::two_pow_255() as int
}

/// A full-width arithmetic shift leaves only the sign: all ones for a
/// negative word, zero otherwise.
pub proof fn lemma_sar_full_width(shift: nat, x: nat)
    requires
        shift >= 256,
    ensures
        sar_spec(shift, x) == (if sint_of(x) < 0 {
            (w256() - 1) as nat
        } else {
            0nat
        }),
{
}

/// `AND`: limb-wise conjunction.
pub fn bitand(interp: &mut Interpreter) -> (r: Return)
    requires
        old(interp).wf_base(),
    ensures
        final(interp).wf_base(),
        only_stack_changed(*old(interp), *final(interp)),
        old(interp).stack@.len() < 2 ==> r == Return::StackUnderflow && final(interp).stack@ == old(interp).stack@,
        old(interp).stack@.len() >= 2 ==> r == Return::Continue && final(interp).stack@
            == binop_stack(
            old(interp).stack@,
            and_nat(op1_of(old(interp).stack@), op2_of(old(interp).stack@)),
        ),
{
    if interp.stack.len() < 2 {
        return Return::StackUnderflow;
    }
    let op1 = match interp.stack.pop() {
        Ok(v) => v,
        Err(e) => { return e },
    };
    let op2 = match interp.stack.pop() {
        Ok(v) => v,
        Err(e) => { return e },
    };
    let v = u256_bitand(op1, op2);
    proof {
        lemma_u256_limbs(op1);
        lemma_u256_limbs(op2);
    }
    interp.stack.push(v)
}

/// `OR`: limb-wise disjunction.
pub fn bitor(interp: &mut Interpreter) -> (r: Return)
    requires
        old(interp).wf_base(),
    ensures
        final(interp).wf_base(),
        only_stack_changed(*old(interp), *final(interp)),
        old(interp).stack@.len() < 2 ==> r == Return::StackUnderflow && final(interp).stack@ == old(interp).stack@,
        old(interp).stack@.len() >= 2 ==> r == Return::Continue && final(interp).stack@
            == binop_stack(
            old(interp).stack@,
            or_nat(op1_of(old(interp).stack@), op2_of(old(interp).stack@)),
        ),
{
    if interp.stack.len() < 2 {
        return Return::StackUnderflow;
    }
    let op1 = match interp.stack.pop() {
        Ok(v) => v,
        Err(e) => { return e },
    };
    let op2 = match interp.stack.pop() {
        Ok(v) => v,
        Err(e) => { return e },
    };
    let v = u256_bitor(op1, op2);
    proof {
        lemma_u256_limbs(op1);
        lemma_u256_limbs(op2);
    }
    interp.stack.push(v)
}

/// `XOR`: limb-wise exclusive or.
pub fn bitxor(interp: &mut Interpreter) -> (r: Return)
    requires
        old(interp).wf_base(),
    ensures
        final(interp).wf_base(),
        only_stack_changed(*old(interp), *final(interp)),
        old(interp).stack@.len() < 2 ==> r == Return::StackUnderflow && final(interp).stack@ == old(interp).stack@,
        old(interp).stack@.len() >= 2 ==> r == Return::Continue && final(interp).stack@
            == binop_stack(
            old(interp).stack@,
            xor_nat(op1_of(old(interp).stack@), op2_of(old(interp).stack@)),
        ),
{
    if interp.stack.len() < 2 {
        return Return::StackUnderflow;
    }
    let op1 = match interp.stack.pop() {
        Ok(v) => v,
        Err(e) => { return e },
    };
    let op2 = match interp.stack.pop() {
        Ok(v) => v,
        Err(e) => { return e },
    };
    let v = u256_bitxor(op1, op2);
    proof {
        lemma_u256_limbs(op1);
        lemma_u256_limbs(op2);
    }
    interp.stack.push(v)
}

} // verus!
