//! Arithmetic opcodes: wrapping ring operations, unsigned and signed
//! division, 512-bit-exact modular sums and products, exponentiation, and
//! sign extension.

use vstd::arithmetic::div_mod::{lemma_fundamental_div_mod_converse, lemma_mod_bound, lemma_mod_multiples_vanish, lemma_small_mod};
use vstd::arithmetic::power::pow;
use vstd::arithmetic::power2::pow2;
use vstd::calc;
use vstd::prelude::*;

use primitive_types::U256;

use crate::gas::{exp_cost, exp_cost_spec};
use crate::instructions::i256::{abs_int, i256_div, i256_mod, sdiv_int, sint_of, srem_int, wrap_int};
use crate::interpreter::{only_stack_and_gas_changed, only_stack_changed, Interpreter};
use crate::ret::Return;
use crate::u256::{
    bit_len, lemma_bit_len, lemma_pow2_256_val, lemma_u256_nat_bound, u256_add, u256_bit,
    u256_bits, u256_div, u256_full_mul, u256_is_zero, u256_low_bits, u256_lt, u256_mul,
    u256_nat, u256_of_u512, u256_one, u256_rem, u256_shl, u256_shr, u256_sub, u256_zero,
    u256_from_limbs, u512_add, u512_of, u512_rem, u512_nat, w256,
};

verus! {

/// The two operands of a binary opcode: the top of the stack and the word
/// under it.
pub open spec fn op1_of(s: Seq<nat>) -> nat {
    s.last()
}

pub open spec fn op2_of(s: Seq<nat>) -> nat {
    s[s.len() - 2]
}

pub open spec fn op3_of(s: Seq<nat>) -> nat {
    s[s.len() - 3]
}

/// The stack after a binary opcode produced `v`.
pub open spec fn binop_stack(s: Seq<nat>, v: nat) -> Seq<nat> {
    s.drop_last().drop_last().push(v)
}

/// The stack after a ternary opcode produced `v`.
pub open spec fn ternop_stack(s: Seq<nat>, v: nat) -> Seq<nat> {
    s.drop_last().drop_last().drop_last().push(v)
}

/// `ADD`: sum modulo 2^256.
pub fn overflowing_add(interp: &mut Interpreter) -> (r: Return)
    requires
        old(interp).wf_base(),
    ensures
        final(interp).wf_base(),
        only_stack_changed(*old(interp), *final(interp)),
        old(interp).stack@.len() < 2 ==> r == Return::StackUnderflow && final(interp).stack@ == old(interp).stack@,
        old(interp).stack@.len() >= 2 ==> r == Return::Continue && final(interp).stack@
            == binop_stack(
            old(interp).stack@,
            (op1_of(old(interp).stack@) + op2_of(old(interp).stack@)) % w256(),
        ),
{
    if interp.stack.len() < 2 {
        return Return::StackUnderflow;
    }
    let op1 = match interp.stack.pop() {
        Ok(v) => v,
        Err(e) => { return e },
    };
    let op2 = match interp.stack.pop() {
        Ok(v) => v,
        Err(e) => { return e },
    };
    interp.stack.push(u256_add(op1, op2))
}

/// `MUL`: product modulo 2^256.
pub fn overflowing_mul(interp: &mut Interpreter) -> (r: Return)
    requires
        old(interp).wf_base(),
    ensures
        final(interp).wf_base(),
        only_stack_changed(*old(interp), *final(interp)),
        old(interp).stack@.len() < 2 ==> r == Return::StackUnderflow && final(interp).stack@ == old(interp).stack@,
        old(interp).stack@.len() >= 2 ==> r == Return::Continue && final(interp).stack@
            == binop_stack(
            old(interp).stack@,
            (op1_of(old(interp).stack@) * op2_of(old(interp).stack@)) % w256(),
        ),
{
    if interp.stack.len() < 2 {
        return Return::StackUnderflow;
    }
    let op1 = match interp.stack.pop() {
        Ok(v) => v,
        Err(e) => { return e },
    };
    let op2 = match interp.stack.pop() {
        Ok(v) => v,
        Err(e) => { return e },
    };
    interp.stack.push(u256_mul(op1, op2))
}

/// `SUB`: difference modulo 2^256, wrapping below zero.
pub fn overflowing_sub(interp: &mut Interpreter) -> (r: Return)
    requires
        old(interp).wf_base(),
    ensures
        final(interp).wf_base(),
        only_stack_changed(*old(interp), *final(interp)),
        old(interp).stack@.len() < 2 ==> r == Return::StackUnderflow && final(interp).stack@ == old(interp).stack@,
        old(interp).stack@.len() >= 2 ==> r == Return::Continue && final(interp).stack@
            == binop_stack(
            old(interp).stack@,
            wrap_int(op1_of(old(interp).stack@) - op2_of(old(interp).stack@)),
        ),
{
    if interp.stack.len() < 2 {
        return Return::StackUnderflow;
    }
    let op1 = match interp.stack.pop() {
        Ok(v) => v,
        Err(e) => { return e },
    };
    let op2 = match interp.stack.pop() {
        Ok(v) => v,
        Err(e) => { return e },
    };
    let v = u256_sub(op1, op2);
    proof {
        let a = u256_nat(op1) as int;
        let b = u256_nat(op2) as int;
        lemma_mod_multiples_vanish(1, a - b, w256() as int);
    }
    interp.stack.push(v)
}

/// `DIV`: unsigned quotient; division by zero yields zero.
pub fn div(interp: &mut Interpreter) -> (r: Return)
    requires
        old(interp).wf_base(),
    ensures
        final(interp).wf_base(),
        only_stack_changed(*old(interp), *final(interp)),
        old(interp).stack@.len() < 2 ==> r == Return::StackUnderflow && final(interp).stack@ == old(interp).stack@,
        old(interp).stack@.len() >= 2 ==> r == Return::Continue && final(interp).stack@
            == binop_stack(
            old(interp).stack@,
            if op2_of(old(interp).stack@) == 0 {
                0
            } else {
                op1_of(old(interp).stack@) / op2_of(old(interp).stack@)
            },
        ),
{
    if interp.stack.len() < 2 {
        return Return::StackUnderflow;
    }
    let op1 = match interp.stack.pop() {
        Ok(v) => v,
        Err(e) => { return e },
    };
    let op2 = match interp.stack.pop() {
        Ok(v) => v,
        Err(e) => { return e },
    };
    let v = if u256_is_zero(&op2) {
        u256_zero()
    } else {
        u256_div(op1, op2)
    };
    interp.stack.push(v)
}

/// `SDIV`: two's-complement quotient truncated toward zero.
pub fn sdiv(interp: &mut Interpreter) -> (r: Return)
    requires
        old(interp).wf_base(),
    ensures
        final(interp).wf_base(),
        only_stack_changed(*old(interp), *final(interp)),
        old(interp).stack@.len() < 2 ==> r == Return::StackUnderflow && final(interp).stack@ == old(interp).stack@,
        old(interp).stack@.len() >= 2 ==> r == Return::Continue && final(interp).stack@
            == binop_stack(
            old(interp).stack@,
            wrap_int(
                sdiv_int(
                    sint_of(op1_of(old(interp).stack@)),
                    sint_of(op2_of(old(interp).stack@)),
                ),
            ),
        ),
{
    if interp.stack.len() < 2 {
        return Return::StackUnderflow;
    }
    let op1 = match interp.stack.pop() {
        Ok(v) => v,
        Err(e) => { return e },
    };
    let op2 = match interp.stack.pop() {
        Ok(v) => v,
        Err(e) => { return e },
    };
    interp.stack.push(i256_div(op1, op2))
}

/// `MOD`: unsigned remainder; a zero modulus yields zero.
pub fn rem(interp: &mut Interpreter) -> (r: Return)
    requires
        old(interp).wf_base(),
    ensures
        final(interp).wf_base(),
        only_stack_changed(*old(interp), *final(interp)),
        old(interp).stack@.len() < 2 ==> r == Return::StackUnderflow && final(interp).stack@ == old(interp).stack@,
        old(interp).stack@.len() >= 2 ==> r == Return::Continue && final(interp).stack@
            == binop_stack(
            old(interp).stack@,
            if op2_of(old(interp).stack@) == 0 {
                0
            } else {
                op1_of(old(interp).stack@) % op2_of(old(interp).stack@)
            },
        ),
{
    if interp.stack.len() < 2 {
        return Return::StackUnderflow;
    }
    let op1 = match interp.stack.pop() {
        Ok(v) => v,
        Err(e) => { return e },
    };
    let op2 = match interp.stack.pop() {
        Ok(v) => v,
        Err(e) => { return e },
    };
    let v = if u256_is_zero(&op2) {
        u256_zero()
    } else {
        u256_rem(op1, op2)
    };
    interp.stack.push(v)
}

/// `SMOD`: two's-complement remainder with the dividend's sign.
pub fn smod(interp: &mut Interpreter) -> (r: Return)
    requires
        old(interp).wf_base(),
    ensures
        final(interp).wf_base(),
        only_stack_changed(*old(interp), *final(interp)),
        old(interp).stack@.len() < 2 ==> r == Return::StackUnderflow && final(interp).stack@ == old(interp).stack@,
        old(interp).stack@.len() >= 2 ==> r == Return::Continue && final(interp).stack@
            == binop_stack(
            old(interp).stack@,
            wrap_int(
                srem_int(
                    sint_of(op1_of(old(interp).stack@)),
                    sint_of(op2_of(old(interp).stack@)),
                ),
            ),
        ),
{
    if interp.stack.len() < 2 {
        return Return::StackUnderflow;
    }
    let op1 = match interp.stack.pop() {
        Ok(v) => v,
        Err(e) => { return e },
    };
    let op2 = match interp.stack.pop() {
        Ok(v) => v,
        Err(e) => { return e },
    };
    interp.stack.push(i256_mod(op1, op2))
}

/// `ADDMOD`: `(a + b) % n` at full precision; a zero modulus yields zero.
pub fn addmod(interp: &mut Interpreter) -> (r: Return)
    requires
        old(interp).wf_base(),
    ensures
        final(interp).wf_base(),
        only_stack_changed(*old(interp), *final(interp)),
        old(interp).stack@.len() < 3 ==> r == Return::StackUnderflow && final(interp).stack@ == old(interp).stack@,
        old(interp).stack@.len() >= 3 ==> r == Return::Continue && final(interp).stack@
            == ternop_stack(
            old(interp).stack@,
            if op3_of(old(interp).stack@) == 0 {
                0
            } else {
                (op1_of(old(interp).stack@) + op2_of(old(interp).stack@)) % op3_of(
                    old(interp).stack@,
                )
            },
        ),
{
    if interp.stack.len() < 3 {
        return Return::StackUnderflow;
    }
    let op1 = match interp.stack.pop() {
        Ok(v) => v,
        Err(e) => { return e },
    };
    let op2 = match interp.stack.pop() {
        Ok(v) => v,
        Err(e) => { return e },
    };
    let op3 = match interp.stack.pop() {
        Ok(v) => v,
        Err(e) => { return e },
    };
    let v = if u256_is_zero(&op3) {
        u256_zero()
    } else {
        proof {
            lemma_u256_nat_bound(op1);
            lemma_u256_nat_bound(op2);
            lemma_u256_nat_bound(op3);
        }
        let s = u512_add(u512_of(op1), u512_of(op2));
        let m = u512_rem(s, u512_of(op3));
        proof {
            lemma_mod_bound(u512_nat(s) as int, u256_nat(op3) as int);
        }
        u256_of_u512(m)
    };
    interp.stack.push(v)
}

/// `MULMOD`: `(a * b) % n` at 512-bit precision; a zero modulus yields zero.
pub fn mulmod(interp: &mut Interpreter) -> (r: Return)
    requires
        old(interp).wf_base(),
    ensures
        final(interp).wf_base(),
        only_stack_changed(*old(interp), *final(interp)),
        old(interp).stack@.len() < 3 ==> r == Return::StackUnderflow && final(interp).stack@ == old(interp).stack@,
        old(interp).stack@.len() >= 3 ==> r == Return::Continue && final(interp).stack@
            == ternop_stack(
            old(interp).stack@,
            if op3_of(old(interp).stack@) == 0 {
                0
            } else {
                (op1_of(old(interp).stack@) * op2_of(old(interp).stack@)) % op3_of(
                    old(interp).stack@,
                )
            },
        ),
{
    if interp.stack.len() < 3 {
        return Return::StackUnderflow;
    }
    let op1 = match interp.stack.pop() {
        Ok(v) => v,
        Err(e) => { return e },
    };
    let op2 = match interp.stack.pop() {
        Ok(v) => v,
        Err(e) => { return e },
    };
    let op3 = match interp.stack.pop() {
        Ok(v) => v,
        Err(e) => { return e },
    };
    let v = if u256_is_zero(&op3) {
        u256_zero()
    } else {
        let p = u256_full_mul(op1, op2);
        let m = u512_rem(p, u512_of(op3));
        proof {
            lemma_u256_nat_bound(op3);
            lemma_mod_bound(u512_nat(p) as int, u256_nat(op3) as int);
        }
        u256_of_u512(m)
    };
    interp.stack.push(v)
}

/// `LT`: 1 when the top is (unsigned) below the next word, else 0.
pub fn lt(interp: &mut Interpreter) -> (r: Return)
    requires
        old(interp).wf_base(),
    ensures
        final(interp).wf_base(),
        only_stack_changed(*old(interp), *final(interp)),
        old(interp).stack@.len() < 2 ==> r == Return::StackUnderflow && final(interp).stack@ == old(interp).stack@,
        old(interp).stack@.len() >= 2 ==> r == Return::Continue && final(interp).stack@
            == binop_stack(
            old(interp).stack@,
            if op1_of(old(interp).stack@) < op2_of(old(interp).stack@) {
                1nat
            } else {
                0nat
            },
        ),
{
    if interp.stack.len() < 2 {
        return Return::StackUnderflow;
    }
    let op1 = match interp.stack.pop() {
        Ok(v) => v,
        Err(e) => { return e },
    };
    let op2 = match interp.stack.pop() {
        Ok(v) => v,
        Err(e) => { return e },
    };
    let v = if u256_lt(&op1, &op2) {
        u256_one()
    } else {
        u256_zero()
    };
    interp.stack.push(v)
}

/// `GT`: 1 when the top is (unsigned) above the next word, else 0.
pub fn gt(interp: &mut Interpreter) -> (r: Return)
    requires
        old(interp).wf_base(),
    ensures
        final(interp).wf_base(),
        only_stack_changed(*old(interp), *final(interp)),
        old(interp).stack@.len() < 2 ==> r == Return::StackUnderflow && final(interp).stack@ == old(interp).stack@,
        old(interp).stack@.len() >= 2 ==> r == Return::Continue && final(interp).stack@
            == binop_stack(
            old(interp).stack@,
            if op1_of(old(interp).stack@) > op2_of(old(interp).stack@) {
                1nat
            } else {
                0nat
            },
        ),
{
    if interp.stack.len() < 2 {
        return Return::StackUnderflow;
    }
    let op1 = match interp.stack.pop() {
        Ok(v) => v,
        Err(e) => { return e },
    };
    let op2 = match interp.stack.pop() {
        Ok(v) => v,
        Err(e) => { return e },
    };
    let v = if u256_lt(&op2, &op1) {
        u256_one()
    } else {
        u256_zero()
    };
    interp.stack.push(v)
}

/// `EQ`: 1 when the two top words are equal, else 0.
pub fn eq(interp: &mut Interpreter) -> (r: Return)
    requires
        old(interp).wf_base(),
    ensures
        final(interp).wf_base(),
        only_stack_changed(*old(interp), *final(interp)),
        old(interp).stack@.len() < 2 ==> r == Return::StackUnderflow && final(interp).stack@ == old(interp).stack@,
        old(interp).stack@.len() >= 2 ==> r == Return::Continue && final(interp).stack@
            == binop_stack(
            old(interp).stack@,
            if op1_of(old(interp).stack@) == op2_of(old(interp).stack@) {
                1nat
            } else {
                0nat
            },
        ),
{
    if interp.stack.len() < 2 {
        return Return::StackUnderflow;
    }
    let op1 = match interp.stack.pop() {
        Ok(v) => v,
        Err(e) => { return e },
    };
    let op2 = match interp.stack.pop() {
        Ok(v) => v,
        Err(e) => { return e },
    };
    let v = if crate::u256::u256_eq(&op1, &op2) {
        u256_one()
    } else {
        u256_zero()
    };
    interp.stack.push(v)
}

/// `EXP`: modular exponentiation by squaring, charging per exponent byte.
pub fn eval_exp(interp: &mut Interpreter, spec_id: u8) -> (r: Return)
    requires
        old(interp).wf_base(),
    ensures
        final(interp).wf_base(),
        only_stack_and_gas_changed(*old(interp), *final(interp)),
        final(interp).gas.limit_spec() == old(interp).gas.limit_spec(),
        final(interp).gas.refunded_spec() == old(interp).gas.refunded_spec(),
        final(interp).gas.remaining_spec() <= old(interp).gas.remaining_spec(),
        old(interp).stack@.len() < 2 ==> r == Return::StackUnderflow && final(interp).stack@ == old(interp).stack@ && final(interp).gas == old(interp).gas,
        old(interp).stack@.len() >= 2 ==> ({
            let cost = exp_cost_spec(spec_id, bit_len(op2_of(old(interp).stack@)));
            if cost <= old(interp).gas.remaining_spec() {
                r == Return::Continue && final(interp).stack@ == binop_stack(
                    old(interp).stack@,
                    (pow(op1_of(old(interp).stack@) as int, op2_of(old(interp).stack@)) % (
                    w256() as int)) as nat,
                ) && final(interp).gas.remaining_spec() == old(interp).gas.remaining_spec() - cost
            } else {
                r == Return::OutOfGas && final(interp).gas == old(interp).gas && final(interp).stack@ == old(interp).stack@.drop_last().drop_last()
            }
        }),
{
    if interp.stack.len() < 2 {
        return Return::StackUnderflow;
    }
    let base = match interp.stack.pop() {
        Ok(v) => v,
        Err(e) => { return e },
    };
    let power = match interp.stack.pop() {
        Ok(v) => v,
        Err(e) => { return e },
    };
    let bits = u256_bits(&power);
    proof {
        lemma_bit_len(u256_nat(power), bits as nat);
    }
    let cost = exp_cost(spec_id, bits);
    if !interp.gas.record_cost(cost) {
        return Return::OutOfGas;
    }
    let mut b = base;
    let mut e = power;
    let mut acc = u256_one();
    proof {
        lemma_pow2_256_val();
        lemma_small_mod(1, w256());
        lemma_u256_nat_bound(base);
    }
    let ghost base0: nat = u256_nat(base);
    let ghost power0: nat = u256_nat(power);
    while !u256_is_zero(&e)
        invariant
            u256_nat(acc) < w256(),
            u256_nat(b) < w256(),
            (u256_nat(acc) * pow(u256_nat(b) as int, u256_nat(e))) % (w256() as int) == pow(
                base0 as int,
                power0,
            ) % (w256() as int),
        decreases u256_nat(e),
    {
        let odd = u256_bit(&e, 0);
        proof {
            vstd::arithmetic::power2::lemma2_to64();
            vstd::arithmetic::div_mod::lemma_div_basics(u256_nat(e) as int);
        }
        if odd {
            let acc2 = u256_mul(acc, b);
            proof {
                lemma_exp_step_odd(u256_nat(acc), u256_nat(b), u256_nat(e));
            }
            acc = acc2;
        } else {
            proof {
                lemma_exp_step_even(u256_nat(acc), u256_nat(b), u256_nat(e));
            }
        }
        let e2 = u256_shr(e, 1);
        let b2 = u256_mul(b, b);
        proof {
            lemma_pow2_256_val();
            vstd::arithmetic::power2::lemma2_to64();
            lemma_u256_nat_bound(e2);
            lemma_u256_nat_bound(b2);
            vstd::arithmetic::div_mod::lemma_div_decreases(u256_nat(e) as int, 2);
        }
        e = e2;
        b = b2;
    }
    proof {
        vstd::arithmetic::power::lemma_pow0(u256_nat(b) as int);
        lemma_small_mod(u256_nat(acc), w256());
    }
    interp.stack.push(acc)
}

/// One halving step of square-and-multiply, odd exponent: fold the current
/// base into the accumulator.
proof fn lemma_exp_step_odd(acc: nat, b: nat, e: nat)
    requires
        e > 0,
        e % 2 == 1,
    ensures
        ((acc * b) % w256() * pow((((b * b) % w256()) as int), (e / 2) as nat)) % (w256() as int) == (acc * pow(
            b as int,
            e,
        )) % (w256() as int),
{
    lemma_exp_halving(acc, b, e);
}

/// One halving step of square-and-multiply, even exponent.
proof fn lemma_exp_step_even(acc: nat, b: nat, e: nat)
    requires
        e > 0,
        e % 2 == 0,
    ensures
        (acc * pow((((b * b) % w256()) as int), (e / 2) as nat)) % (w256() as int) == (acc * pow(b as int, e))
            % (w256() as int),
{
    lemma_exp_halving(acc, b, e);
}

/// `pow(b, e) == pow(b², e/2) · b^(e%2)`, carried through the modulus.
proof fn lemma_exp_halving(acc: nat, b: nat, e: nat)
    requires
        e > 0,
    ensures
        e % 2 == 1 ==> ((acc * b) % w256() * pow((((b * b) % w256()) as int), (e / 2) as nat)) % (
        w256() as int) == (acc * pow(b as int, e)) % (w256() as int),
        e % 2 == 0 ==> (acc * pow((((b * b) % w256()) as int), (e / 2) as nat)) % (w256() as int) == (acc * pow(
            b as int,
            e,
        )) % (w256() as int),
{
    let m = w256() as int;
    let h = (e / 2) as nat;
    // pow(b, e) == pow(b*b, e/2) * pow(b, e%2)
    assert(pow(b as int, 2 * h) == pow(((b * b) as int), h)) by {
        vstd::arithmetic::power::lemma_pow_multiplies(b as int, 2, h);
        vstd::arithmetic::power::lemma_square_is_pow2(b as int);
    }
    assert(pow((((b * b) % w256()) as int), h) % m == pow(((b * b) as int), h) % m) by {
        vstd::arithmetic::power::lemma_pow_mod_noop((b * b) as int, h, m);
    }
    if e % 2 == 1 {
        assert(e == 2 * h + 1);
        assert(pow(b as int, e) == pow(b as int, 2 * h) * b) by {
            vstd::arithmetic::power::lemma_pow1(b as int);
            vstd::arithmetic::power::lemma_pow_adds(b as int, 2 * h, 1);
        }
        calc! {
            (==)
            ((acc * b) % w256() * pow((((b * b) % w256()) as int), h)) % m; {
                vstd::arithmetic::div_mod::lemma_mul_mod_noop_general(
                    (acc * b) as int,
                    pow((((b * b) % w256()) as int), h),
                    m,
                );
            }
            (((acc * b) as int % m) * (pow((((b * b) % w256()) as int), h) % m)) % m; {}
            (((acc * b) as int % m) * (pow(((b * b) as int), h) % m)) % m; {
                vstd::arithmetic::div_mod::lemma_mul_mod_noop_general(
                    (acc * b) as int,
                    pow(((b * b) as int), h),
                    m,
                );
            }
            ((acc * b) * pow(((b * b) as int), h)) % m; {
                vstd::arithmetic::mul::lemma_mul_is_associative(
                    acc as int,
                    b as int,
                    pow(((b * b) as int), h),
                );
                vstd::arithmetic::mul::lemma_mul_is_commutative(
                    b as int,
                    pow(((b * b) as int), h),
                );
                vstd::arithmetic::mul::lemma_mul_is_associative(
                    acc as int,
                    pow(((b * b) as int), h),
                    b as int,
                );
            }
            (acc * (pow(((b * b) as int), h) * b)) % m; {}
            (acc * (pow(b as int, 2 * h) * b)) % m; {}
            (acc * pow(b as int, e)) % m;
        }
    } else {
        assert(e == 2 * h);
        calc! {
            (==)
            (acc * pow((((b * b) % w256()) as int), h)) % m; {
                vstd::arithmetic::div_mod::lemma_mul_mod_noop_general(
                    acc as int,
                    pow((((b * b) % w256()) as int), h),
                    m,
                );
            }
            (((acc as int) % m) * (pow((((b * b) % w256()) as int), h) % m)) % m; {}
            (((acc as int) % m) * (pow(((b * b) as int), h) % m)) % m; {
                vstd::arithmetic::div_mod::lemma_mul_mod_noop_general(
                    acc as int,
                    pow(((b * b) as int), h),
                    m,
                );
            }
            (acc * pow(((b * b) as int), h)) % m; {}
            (acc * pow(b as int, e)) % m;
        }
    }
}

/// `SIGNEXTEND`: broadcast bit `8x + 7` of `y` into all higher bits; the
/// identity when `x >= 32`.
pub open spec fn signextend_spec(x: nat, y: nat) -> nat {
    if x >= 32 {
        y
    } else {
        let t = 8 * x + 7;
        let low = y % pow2(t + 1);
        if (y / pow2(t)) % 2 == 1 {
            (low + (w256() - pow2(t + 1))) as nat
        } else {
            low
        }
    }
}

/// `SIGNEXTEND`.
pub fn signextend(interp: &mut Interpreter) -> (r: Return)
    requires
        old(interp).wf_base(),
    ensures
        final(interp).wf_base(),
        only_stack_changed(*old(interp), *final(interp)),
        old(interp).stack@.len() < 2 ==> r == Return::StackUnderflow && final(interp).stack@ == old(interp).stack@,
        old(interp).stack@.len() >= 2 ==> r == Return::Continue && final(interp).stack@
            == binop_stack(
            old(interp).stack@,
            signextend_spec(op1_of(old(interp).stack@), op2_of(old(interp).stack@)),
        ),
{
    if interp.stack.len() < 2 {
        return Return::StackUnderflow;
    }
    let op1 = match interp.stack.pop() {
        Ok(v) => v,
        Err(e) => { return e },
    };
    let op2 = match interp.stack.pop() {
        Ok(v) => v,
        Err(e) => { return e },
    };
    proof {
        lemma_pow2_256_val();
        lemma_u256_nat_bound(op2);
    }
    let thirty_two = u256_from_limbs(32, 0, 0, 0);
    let v = if u256_lt(&op1, &thirty_two) {
        let x = u256_low_u64_small(&op1);
        if x == 31 {
            proof {
                vstd::arithmetic::power2::lemma_pow2_pos(256);
                lemma_small_mod(u256_nat(op2), pow2(256));
            }
            op2
        } else {
            let t: usize = (8 * x as usize) + 7;
            let bit = u256_bit(&op2, t);
            let low = u256_low_bits(op2, t + 1);
            proof {
                vstd::arithmetic::power2::lemma_pow2_strictly_increases((t + 1) as nat, 256);
                vstd::arithmetic::power2::lemma_pow2_pos((t + 1) as nat);
                vstd::arithmetic::div_mod::lemma_mod_bound(
                    u256_nat(op2) as int,
                    pow2((t + 1) as nat) as int,
                );
            }
            if bit {
                let ones = crate::instructions::i256::two_compl(u256_shl(u256_one(), t + 1));
                proof {
                    lemma_signextend_high(u256_nat(op2), t as nat);
                }
                u256_add(low, ones)
            } else {
                low
            }
        }
    } else {
        op2
    };
    interp.stack.push(v)
}

/// The all-ones upper mask used by a negative `SIGNEXTEND` result fits next
/// to the low bits without wrapping.
proof fn lemma_signextend_high(y: nat, t: nat)
    requires
        t < 255,
        y < w256(),
    ensures
        (pow2((t + 1) as nat) * 1) % w256() == pow2((t + 1) as nat),
        (y % pow2((t + 1) as nat)) + (w256() - pow2((t + 1) as nat)) < w256(),
        wrap_int(-(pow2((t + 1) as nat) as int)) == w256() - pow2((t + 1) as nat),
        (((y % pow2((t + 1) as nat)) + (w256() - pow2((t + 1) as nat))) as nat) % w256() == (
        y % pow2((t + 1) as nat)) + (w256() - pow2((t + 1) as nat)),
{
    lemma_pow2_256_val();
    vstd::arithmetic::power2::lemma_pow2_strictly_increases((t + 1) as nat, 256);
    let p = pow2((t + 1) as nat);
    vstd::arithmetic::power2::lemma_pow2_pos((t + 1) as nat);
    lemma_small_mod(p, w256());
    lemma_mod_bound(y as int, p as int);
    vstd::arithmetic::div_mod::lemma_fundamental_div_mod_converse(
        -(p as int),
        w256() as int,
        -1,
        (w256() - p) as int,
    );
    lemma_small_mod(((y % p) + (w256() - p)) as nat, w256());
}

/// The delicate corner of truncated signed division: the most negative
/// word divided by minus one wraps back to itself.
pub proof fn lemma_sdiv_min_by_neg_one()
    ensures
        wrap_int(
            sdiv_int(
                sint_of(crate::u256::two_pow_255()),
                sint_of((w256() - 1) as nat),
            ),
        ) == crate::u256::two_pow_255(),
{
    lemma_pow2_256_val();
    let min = crate::u256::two_pow_255();
    assert(sint_of(min) == min - w256());
    assert(sint_of((w256() - 1) as nat) == -1);
    assert(abs_int(sint_of(min)) == min as int);
    vstd::arithmetic::div_mod::lemma_div_basics(min as int);
    assert(sdiv_int(sint_of(min), -1) == min as int);
    lemma_small_mod(min, w256());
}

/// `SIGNEXTEND` is the identity once the byte index reaches the word
/// width.
pub proof fn lemma_signextend_identity(x: nat, y: nat)
    requires
        x >= 32,
    ensures
        signextend_spec(x, y) == y,
{
}

/// The low limb of a word known to be below 2^64.
fn u256_low_u64_small(v: &U256) -> (r: u64)
    requires
        u256_nat(*v) < 0x10000000000000000nat,
    ensures
        r == u256_nat(*v),
{
    let r = crate::u256::u256_low_u64(v);
    proof {
        lemma_small_mod(u256_nat(*v), crate::u256::w64());
    }
    r
}

} // verus!
