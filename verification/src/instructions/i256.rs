//! Two's-complement readings of 256-bit words: sign, negation, comparison,
//! and truncated signed division and remainder.

use vstd::arithmetic::div_mod::{
    lemma_fundamental_div_mod, lemma_fundamental_div_mod_converse, lemma_mod_bound,
    lemma_small_mod,
};
use vstd::arithmetic::power2::pow2;
use vstd::prelude::*;

use primitive_types::U256;

use crate::u256::{
    lemma_pow2_256_val, lemma_u256_nat_bound, two_pow_255, u256_bit, u256_div, u256_is_zero,
    u256_lt, u256_nat, u256_rem, u256_sub, u256_zero, w256,
};

verus! {

/// The signed value a word denotes under two's complement.
pub open spec fn sint_of(n: nat) -> int {
    if n < two_pow_255() {
        n as int
    } else {
        n - w256()
    }
}

/// Back from a mathematical integer to the word that denotes it, modulo
/// 2^256 (`%` on `int` never returns a negative here).
pub open spec fn wrap_int(v: int) -> nat {
    (v % (w256() as int)) as nat
}

pub open spec fn abs_int(v: int) -> int {
    if v >= 0 {
        v
    } else {
        -v
    }
}

/// Division truncated toward zero, with the EVM rule that anything divided
/// by zero is zero.
pub open spec fn sdiv_int(a: int, b: int) -> int {
    if b == 0 {
        0
    } else if (a >= 0) == (b >= 0) {
        abs_int(a) / abs_int(b)
    } else {
        -(abs_int(a) / abs_int(b))
    }
}

/// Remainder with the sign of the dividend, zero when the divisor is zero.
pub open spec fn srem_int(a: int, b: int) -> int {
    if b == 0 {
        0
    } else if a >= 0 {
        abs_int(a) % abs_int(b)
    } else {
        -(abs_int(a) % abs_int(b))
    }
}

/// Whether the word denotes a negative value: its top bit is set.
pub fn is_neg(v: &U256) -> (r: bool)
    ensures
        r == (sint_of(u256_nat(*v)) < 0),
{
    let b = u256_bit(v, 255);
    proof {
        lemma_pow2_256_val();
        lemma_u256_nat_bound(*v);
        let n = u256_nat(*v);
        lemma_fundamental_div_mod(n as int, two_pow_255() as int);
        lemma_mod_bound(n as int, two_pow_255() as int);
        if n < two_pow_255() {
            vstd::arithmetic::div_mod::lemma_basic_div(n as int, two_pow_255() as int);
        }
    }
    b
}

/// Two's-complement negation.
pub fn two_compl(v: U256) -> (r: U256)
    ensures
        u256_nat(r) == wrap_int(-(u256_nat(v) as int)),
{
    let r = u256_sub(u256_zero(), v);
    proof {
        let n = u256_nat(v) as int;
        let m = w256() as int;
        lemma_u256_nat_bound(v);
        if n == 0 {
            lemma_small_mod(0, w256());
        } else {
            lemma_fundamental_div_mod_converse(-n, m, -1, m - n);
            lemma_small_mod((m - n) as nat, w256());
        }
    }
    r
}

/// Signed order: negative words sort below non-negative ones, and within a
/// sign class the unsigned order is the signed order.
pub fn i256_lt(a: &U256, b: &U256) -> (r: bool)
    ensures
        r == (sint_of(u256_nat(*a)) < sint_of(u256_nat(*b))),
{
    let na = is_neg(a);
    let nb = is_neg(b);
    if na != nb {
        na
    } else {
        u256_lt(a, b)
    }
}

/// Truncated signed division: `MIN / -1` wraps back to `MIN`.
pub fn i256_div(a: U256, b: U256) -> (r: U256)
    ensures
        u256_nat(r) == wrap_int(sdiv_int(sint_of(u256_nat(a)), sint_of(u256_nat(b)))),
{
    proof {
        lemma_u256_nat_bound(a);
        lemma_u256_nat_bound(b);
        lemma_pow2_256_val();
    }
    if u256_is_zero(&b) {
        proof {
            lemma_small_mod(0, w256());
        }
        return u256_zero();
    }
    let neg_a = is_neg(&a);
    let neg_b = is_neg(&b);
    let abs_a = if neg_a {
        two_compl(a)
    } else {
        a
    };
    let abs_b = if neg_b {
        two_compl(b)
    } else {
        b
    };
    proof {
        lemma_abs_val(u256_nat(a), u256_nat(abs_a));
        lemma_abs_val(u256_nat(b), u256_nat(abs_b));
    }
    let q = u256_div(abs_a, abs_b);
    proof {
        lemma_u256_nat_bound(q);
        vstd::arithmetic::div_mod::lemma_div_is_ordered_by_denominator(
            u256_nat(abs_a) as int,
            1,
            u256_nat(abs_b) as int,
        );
    }
    if neg_a != neg_b {
        two_compl(q)
    } else {
        proof {
            lemma_small_mod(u256_nat(q), w256());
        }
        q
    }
}

/// Signed remainder, carrying the dividend's sign.
pub fn i256_mod(a: U256, b: U256) -> (r: U256)
    ensures
        u256_nat(r) == wrap_int(srem_int(sint_of(u256_nat(a)), sint_of(u256_nat(b)))),
{
    proof {
        lemma_u256_nat_bound(a);
        lemma_u256_nat_bound(b);
        lemma_pow2_256_val();
    }
    if u256_is_zero(&b) {
        proof {
            lemma_small_mod(0, w256());
        }
        return u256_zero();
    }
    let neg_a = is_neg(&a);
    let neg_b = is_neg(&b);
    let abs_a = if neg_a {
        two_compl(a)
    } else {
        a
    };
    let abs_b = if neg_b {
        two_compl(b)
    } else {
        b
    };
    proof {
        lemma_abs_val(u256_nat(a), u256_nat(abs_a));
        lemma_abs_val(u256_nat(b), u256_nat(abs_b));
    }
    let m = u256_rem(abs_a, abs_b);
    proof {
        lemma_mod_bound(u256_nat(abs_a) as int, u256_nat(abs_b) as int);
        lemma_u256_nat_bound(m);
    }
    if neg_a {
        two_compl(m)
    } else {
        proof {
            lemma_small_mod(u256_nat(m), w256());
        }
        m
    }
}

/// The magnitude of the signed reading, after two's-complement negation of
/// a negative word.
proof fn lemma_abs_val(n: nat, a: nat)
    requires
        n < w256(),
        n < two_pow_255() ==> a == n,
        n >= two_pow_255() ==> a == wrap_int(-(n as int)),
    ensures
        a == abs_int(sint_of(n)),
        a <= two_pow_255(),
{
    lemma_pow2_256_val();
    if n >= two_pow_255() {
        if n == 0 {
        } else {
            lemma_fundamental_div_mod_converse(-(n as int), w256() as int, -1, w256() - n);
            lemma_small_mod((w256() - n) as nat, w256());
        }
    }
}

} // verus!
