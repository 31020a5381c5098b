//! 256-bit words, backed by `primitive_types::U256`.
//!
//! The interpreter's whole data path runs over 256-bit unsigned integers.
//! This module gives every operation of the outside crate that the opcode
//! handlers rely on an exact contract over the mathematical value
//! `u256_nat`, the natural number a word denotes. The arithmetic itself is
//! done by `primitive_types`; verified code builds the signed, shifted and
//! masked views on top of these contracts.

use vstd::arithmetic::div_mod::{
    lemma_fundamental_div_mod, lemma_fundamental_div_mod_converse, lemma_mod_multiples_vanish,
    lemma_small_mod, lemma_div_by_multiple, lemma_mod_bound,
};
use vstd::arithmetic::power2::{pow2, lemma_pow2_adds, lemma2_to64};
use vstd::prelude::*;

use primitive_types::{U256, U512};

verus! {

#[verifier::external_type_specification]
pub struct ExU256(U256);

#[verifier::external_type_specification]
pub struct ExU512(U512);

/// 2^64, 2^128, 2^192, 2^256 as plain numerals, the limb weights.
pub open spec fn w64() -> nat {
    0x10000000000000000nat
}

pub open spec fn w128() -> nat {
    0x100000000000000000000000000000000nat
}

pub open spec fn w192() -> nat {
    0x1000000000000000000000000000000000000000000000000nat
}

pub open spec fn two_pow_255() -> nat {
    0x8000000000000000000000000000000000000000000000000000000000000000nat
}

pub open spec fn w256() -> nat {
    0x10000000000000000000000000000000000000000000000000000000000000000nat
}

/// The natural number a 256-bit word denotes: little-endian 64-bit limbs.
pub open spec fn u256_nat(v: U256) -> nat {
    (v.0[0] as nat) + (v.0[1] as nat) * w64() + (v.0[2] as nat) * w128() + (v.0[3] as nat)
        * w192()
}

/// The natural number a 512-bit word denotes.
pub open spec fn u512_nat(v: U512) -> nat {
    (v.0[0] as nat) + (v.0[1] as nat) * w64() + (v.0[2] as nat) * w128() + (v.0[3] as nat)
        * w192() + (v.0[4] as nat) * (w256()) + (v.0[5] as nat) * (w256() * w64()) + (
    v.0[6] as nat) * (w256() * w128()) + (v.0[7] as nat) * (w256() * w192())
}

pub proof fn lemma_u256_nat_bound(v: U256)
    ensures
        u256_nat(v) < w256(),
{
    assert(v.0[0] <= 0xffffffffffffffffu64);
}

/// The `i`-th 64-bit limb of a value, counting from the least significant.
pub open spec fn limb64(n: nat, i: nat) -> u64 {
    ((n / pow2(64 * i)) % w64()) as u64
}

/// Limb-wise bitwise AND, lifted to values.
pub open spec fn and_nat(a: nat, b: nat) -> nat {
    ((limb64(a, 0) & limb64(b, 0)) as nat) + ((limb64(a, 1) & limb64(b, 1)) as nat) * w64() + ((
    limb64(a, 2) & limb64(b, 2)) as nat) * w128() + ((limb64(a, 3) & limb64(b, 3)) as nat) * w192()
}

/// Limb-wise bitwise OR, lifted to values.
pub open spec fn or_nat(a: nat, b: nat) -> nat {
    ((limb64(a, 0) | limb64(b, 0)) as nat) + ((limb64(a, 1) | limb64(b, 1)) as nat) * w64() + ((
    limb64(a, 2) | limb64(b, 2)) as nat) * w128() + ((limb64(a, 3) | limb64(b, 3)) as nat) * w192()
}

/// Limb-wise bitwise XOR, lifted to values.
pub open spec fn xor_nat(a: nat, b: nat) -> nat {
    ((limb64(a, 0) ^ limb64(b, 0)) as nat) + ((limb64(a, 1) ^ limb64(b, 1)) as nat) * w64() + ((
    limb64(a, 2) ^ limb64(b, 2)) as nat) * w128() + ((limb64(a, 3) ^ limb64(b, 3)) as nat) * w192()
}

/// A word's limbs are exactly the limbs of the value it denotes.
pub proof fn lemma_u256_limbs(v: U256)
    ensures
        limb64(u256_nat(v), 0) == v.0[0],
        limb64(u256_nat(v), 1) == v.0[1],
        limb64(u256_nat(v), 2) == v.0[2],
        limb64(u256_nat(v), 3) == v.0[3],
{
    lemma_pow2_256_val();
    lemma_pow2_adds(64, 64);
    lemma_pow2_adds(128, 64);
    let n = u256_nat(v);
    let l0 = v.0[0] as int;
    let l1 = v.0[1] as int;
    let l2 = v.0[2] as int;
    let l3 = v.0[3] as int;
    let w = w64() as int;
    let t1 = l1 + w * (l2 + w * l3);
    let t2 = l2 + w * l3;
    assert(n as int == w * t1 + l0) by (nonlinear_arith)
        requires
            n == l0 + l1 * w64() + l2 * w128() + l3 * w192(),
            t1 == l1 + w * (l2 + w * l3),
            w == w64(),
            w128() == w64() * w64(),
            w192() == w128() * w64(),
            l0 >= 0,
    ;
    lemma_fundamental_div_mod_converse(n as int, w, t1, l0);
    lemma_fundamental_div_mod_converse(t1, w, t2, l1);
    lemma_fundamental_div_mod_converse(t2, w, l3, l2);
    assert(t1 >= 0) by (nonlinear_arith)
        requires
            t1 == l1 + w * (l2 + w * l3),
            l1 >= 0 && l2 >= 0 && l3 >= 0 && w > 0,
    ;
    assert(pow2(0) == 1) by {
        lemma2_to64();
    }
    assert(n / pow2(0) == n);
    assert(limb64(n, 0) == l0);
    assert(n / pow2(64) == t1);
    assert(limb64(n, 1) == l1);
    assert(n / pow2(128) == (n / pow2(64)) / pow2(64)) by {
        vstd::arithmetic::div_mod::lemma_div_denominator(n as int, pow2(64) as int, pow2(64) as int);
    }
    assert(limb64(n, 2) == l2);
    assert(n / pow2(192) == (n / pow2(128)) / pow2(64)) by {
        vstd::arithmetic::div_mod::lemma_div_denominator(
            n as int,
            pow2(128) as int,
            pow2(64) as int,
        );
    }
    assert(n / pow2(192) == l3);
    assert(limb64(n, 3) == l3) by {
        lemma_small_mod(l3 as nat, w64());
    }
}

/// The number of bits needed to write `n`: zero for zero.
pub open spec fn bit_len(n: nat) -> nat
    decreases n,
{
    if n == 0 {
        0
    } else {
        1 + bit_len(n / 2)
    }
}

/// `bit_len` is pinned down by the two-sided power-of-two bound that
/// `u256_bits` reports.
pub proof fn lemma_bit_len(n: nat, r: nat)
    requires
        n < pow2(r),
        r > 0 ==> pow2((r - 1) as nat) <= n,
    ensures
        bit_len(n) == r,
    decreases r,
{
    lemma2_to64();
    if r == 0 {
        assert(n == 0);
    } else {
        vstd::arithmetic::power2::lemma_pow2_unfold(r);
        assert(pow2(r) == 2 * pow2((r - 1) as nat));
        if r == 1 {
            assert(n == 1);
        } else {
            vstd::arithmetic::power2::lemma_pow2_unfold((r - 1) as nat);
            assert(pow2((r - 1) as nat) == 2 * pow2((r - 2) as nat));
            assert(n / 2 >= pow2((r - 2) as nat));
            assert(n / 2 < pow2((r - 1) as nat));
            lemma_bit_len(n / 2, (r - 1) as nat);
            assert(n > 0);
        }
    }
}

/// The value of a big-endian byte string.
pub open spec fn be_nat(s: Seq<u8>) -> nat
    decreases s.len(),
{
    if s.len() == 0 {
        0
    } else {
        (be_nat(s.drop_last()) * 256 + s.last()) as nat
    }
}

/// The canonical `n`-byte big-endian encoding of a value (modulo 2^(8n)).
pub open spec fn be_bytes_of(v: nat, n: nat) -> Seq<u8>
    decreases n,
{
    if n == 0 {
        Seq::<u8>::empty()
    } else {
        be_bytes_of(v / 256, (n - 1) as nat).push((v % 256) as u8)
    }
}

/// Decoding the canonical encoding gives the value back, modulo 2^(8n).
pub proof fn lemma_be_nat_of_bytes(v: nat, n: nat)
    ensures
        be_bytes_of(v, n).len() == n,
        be_nat(be_bytes_of(v, n)) == v % pow2(8 * n),
    decreases n,
{
    lemma2_to64();
    if n == 0 {
        assert(pow2(0) == 1);
        lemma_mod_bound(v as int, 1);
    } else {
        lemma_be_nat_of_bytes(v / 256, (n - 1) as nat);
        let s = be_bytes_of(v, n);
        assert(s.drop_last() =~= be_bytes_of(v / 256, (n - 1) as nat));
        assert(be_nat(s) == ((v / 256) % pow2(8 * (n - 1) as nat)) * 256 + v % 256);
        lemma_pow2_adds(8 * (n - 1) as nat, 8);
        assert(pow2(8) == 256);
        let p = pow2(8 * (n - 1) as nat);
        vstd::arithmetic::power2::lemma_pow2_pos(8 * (n - 1) as nat);
        lemma_fundamental_div_mod((v / 256) as int, p as int);
        let q = (v / 256) / p;
        lemma_fundamental_div_mod(v as int, 256);
        assert(v == 256 * (v / 256) + v % 256);
        assert(v / 256 == q * p + (v / 256) % p);
        assert(v == (q * p + (v / 256) % p) * 256 + v % 256);
        lemma_be_regroup(v as int, q as int, p as int, ((v / 256) % p) as int, (v % 256) as int);
        lemma_mod_bound((v / 256) as int, p as int);
        vstd::arithmetic::div_mod::lemma_fundamental_div_mod_converse(
            v as int,
            (p * 256) as int,
            q as int,
            (((v / 256) % p) * 256 + v % 256) as int,
        );
    }
}

/// Regrouping one byte onto a big-endian prefix, and the bound that makes
/// the regrouped remainder a genuine Euclidean remainder.
proof fn lemma_be_regroup(v: int, q: int, p: int, r2: int, r1: int)
    requires
        v == (q * p + r2) * 256 + r1,
        0 <= r2 < p,
        0 <= r1 < 256,
    ensures
        v == q * (p * 256) + (r2 * 256 + r1),
        r2 * 256 + r1 < p * 256,
{
    assert(v == q * (p * 256) + (r2 * 256 + r1)) by (nonlinear_arith)
        requires
            v == (q * p + r2) * 256 + r1,
    ;
    assert(r2 * 256 + r1 < p * 256) by (nonlinear_arith)
        requires
            0 <= r2 < p,
            0 <= r1 < 256,
    ;
}

/// A fixed-length big-endian byte string is determined by its value: the
/// substance of the store/load round trip.
pub proof fn lemma_be_nat_injective(s1: Seq<u8>, s2: Seq<u8>)
    requires
        s1.len() == s2.len(),
        be_nat(s1) == be_nat(s2),
    ensures
        s1 == s2,
    decreases s1.len(),
{
    if s1.len() == 0 {
        assert(s1 =~= s2);
    } else {
        lemma_be_nat_last(s1);
        lemma_be_nat_last(s2);
        lemma_be_nat_injective(s1.drop_last(), s2.drop_last());
        assert forall|i: int| 0 <= i < s1.len() implies s1[i] == s2[i] by {
            if i < s1.len() - 1 {
                assert(s1[i] == s1.drop_last()[i]);
                assert(s2[i] == s2.drop_last()[i]);
            }
        }
        assert(s1 =~= s2);
    }
}

/// The last byte and the prefix of a big-endian string are recovered from
/// its value by division and remainder.
pub proof fn lemma_be_nat_last(s: Seq<u8>)
    requires
        s.len() > 0,
    ensures
        be_nat(s) % 256 == s.last(),
        be_nat(s) / 256 == be_nat(s.drop_last()),
{
    lemma_fundamental_div_mod_converse(
        be_nat(s) as int,
        256,
        be_nat(s.drop_last()) as int,
        s.last() as int,
    );
}

/// Relies on `primitive_types::U256::zero`.
#[verifier::external_body]
pub fn u256_zero() -> (r: U256)
    ensures
        u256_nat(r) == 0,
{
    U256::zero()
}

/// Relies on `primitive_types::U256::one`.
#[verifier::external_body]
pub fn u256_one() -> (r: U256)
    ensures
        u256_nat(r) == 1,
{
    U256::one()
}

/// Relies on `primitive_types::U256`'s limb constructor: the word whose low
/// limb is `x`.
#[verifier::external_body]
pub fn make_u256(x: u64) -> (r: U256)
    ensures
        u256_nat(r) == x,
{
    U256([x, 0, 0, 0])
}

/// Relies on `primitive_types::U256`'s limb constructor.
#[verifier::external_body]
pub(crate) fn u256_from_limbs(l0: u64, l1: u64, l2: u64, l3: u64) -> (r: U256)
    ensures
        r.0[0] == l0,
        r.0[1] == l1,
        r.0[2] == l2,
        r.0[3] == l3,
{
    U256([l0, l1, l2, l3])
}

/// Relies on `primitive_types::U256::overflowing_add`: addition modulo 2^256.
#[verifier::external_body]
pub(crate) fn u256_add(a: U256, b: U256) -> (r: U256)
    ensures
        u256_nat(r) == (u256_nat(a) + u256_nat(b)) % w256(),
{
    a.overflowing_add(b).0
}

/// Relies on `primitive_types::U256::overflowing_sub`: subtraction modulo
/// 2^256 (wrapping below zero).
#[verifier::external_body]
pub(crate) fn u256_sub(a: U256, b: U256) -> (r: U256)
    ensures
        u256_nat(r) == ((u256_nat(a) + w256() - u256_nat(b)) as nat) % w256(),
{
    a.overflowing_sub(b).0
}

/// Relies on `primitive_types::U256::overflowing_mul`: multiplication modulo
/// 2^256.
#[verifier::external_body]
pub(crate) fn u256_mul(a: U256, b: U256) -> (r: U256)
    ensures
        u256_nat(r) == (u256_nat(a) * u256_nat(b)) % w256(),
{
    a.overflowing_mul(b).0
}

/// Relies on `primitive_types::U256::div_mod`: Euclidean quotient; the
/// divisor must not be zero (the outside function panics on it).
#[verifier::external_body]
pub(crate) fn u256_div(a: U256, b: U256) -> (r: U256)
    requires
        u256_nat(b) != 0,
    ensures
        u256_nat(r) == u256_nat(a) / u256_nat(b),
{
    a.div_mod(b).0
}

/// Relies on `primitive_types::U256::div_mod`: Euclidean remainder; the
/// divisor must not be zero (the outside function panics on it).
#[verifier::external_body]
pub(crate) fn u256_rem(a: U256, b: U256) -> (r: U256)
    requires
        u256_nat(b) != 0,
    ensures
        u256_nat(r) == u256_nat(a) % u256_nat(b),
{
    a.div_mod(b).1
}

/// Relies on `primitive_types::U256`'s `Ord` impl: limb-lexicographic order,
/// which is the numeric order.
#[verifier::external_body]
pub(crate) fn u256_lt(a: &U256, b: &U256) -> (r: bool)
    ensures
        r == (u256_nat(*a) < u256_nat(*b)),
{
    a < b
}

/// Relies on `primitive_types::U256`'s `PartialEq` impl: limb equality.
#[verifier::external_body]
pub(crate) fn u256_eq(a: &U256, b: &U256) -> (r: bool)
    ensures
        r == (u256_nat(*a) == u256_nat(*b)),
{
    a == b
}

/// Relies on `primitive_types::U256::is_zero`.
#[verifier::external_body]
pub(crate) fn u256_is_zero(a: &U256) -> (r: bool)
    ensures
        r == (u256_nat(*a) == 0),
{
    a.is_zero()
}

/// Relies on `primitive_types::U256`'s `BitAnd` impl: limb-wise `&`.
#[verifier::external_body]
pub(crate) fn u256_bitand(a: U256, b: U256) -> (r: U256)
    ensures
        r.0[0] == a.0[0] & b.0[0],
        r.0[1] == a.0[1] & b.0[1],
        r.0[2] == a.0[2] & b.0[2],
        r.0[3] == a.0[3] & b.0[3],
{
    a & b
}

/// Relies on `primitive_types::U256`'s `BitOr` impl: limb-wise `|`.
#[verifier::external_body]
pub(crate) fn u256_bitor(a: U256, b: U256) -> (r: U256)
    ensures
        r.0[0] == a.0[0] | b.0[0],
        r.0[1] == a.0[1] | b.0[1],
        r.0[2] == a.0[2] | b.0[2],
        r.0[3] == a.0[3] | b.0[3],
{
    a | b
}

/// Relies on `primitive_types::U256`'s `BitXor` impl: limb-wise `^`.
#[verifier::external_body]
pub(crate) fn u256_bitxor(a: U256, b: U256) -> (r: U256)
    ensures
        r.0[0] == a.0[0] ^ b.0[0],
        r.0[1] == a.0[1] ^ b.0[1],
        r.0[2] == a.0[2] ^ b.0[2],
        r.0[3] == a.0[3] ^ b.0[3],
{
    a ^ b
}

/// Relies on `primitive_types::U256`'s `Not` impl: limb-wise `!`.
#[verifier::external_body]
pub(crate) fn u256_not(a: U256) -> (r: U256)
    ensures
        r.0[0] == !a.0[0],
        r.0[1] == !a.0[1],
        r.0[2] == !a.0[2],
        r.0[3] == !a.0[3],
{
    !a
}

/// Relies on `primitive_types::U256`'s `Shl` impl: left shift drops the high
/// bits, i.e. multiplies modulo 2^256.
#[verifier::external_body]
pub(crate) fn u256_shl(a: U256, shift: usize) -> (r: U256)
    requires
        shift < 256,
    ensures
        u256_nat(r) == (u256_nat(a) * pow2(shift as nat)) % w256(),
{
    a << shift
}

/// Relies on `primitive_types::U256`'s `Shr` impl: logical right shift, i.e.
/// division by a power of two.
#[verifier::external_body]
pub(crate) fn u256_shr(a: U256, shift: usize) -> (r: U256)
    requires
        shift < 256,
    ensures
        u256_nat(r) == u256_nat(a) / pow2(shift as nat),
{
    a >> shift
}

/// Relies on `primitive_types::U256::bit`: the bit at `index`, counting from
/// the least significant.
#[verifier::external_body]
pub(crate) fn u256_bit(a: &U256, index: usize) -> (r: bool)
    requires
        index < 256,
    ensures
        r == ((u256_nat(*a) / pow2(index as nat)) % 2 == 1),
{
    a.bit(index)
}

/// Relies on `primitive_types::U256::bits`: the least number of bits that
/// represent the value.
#[verifier::external_body]
pub(crate) fn u256_bits(a: &U256) -> (r: usize)
    ensures
        r <= 256,
        u256_nat(*a) < pow2(r as nat),
        r > 0 ==> u256_nat(*a) >= pow2((r - 1) as nat),
{
    a.bits()
}

/// Relies on `primitive_types::U256::low_u64`: the low limb, i.e. the value
/// modulo 2^64.
#[verifier::external_body]
pub(crate) fn u256_low_u64(a: &U256) -> (r: u64)
    ensures
        r == u256_nat(*a) % w64(),
{
    a.low_u64()
}

/// Relies on `primitive_types::U256::from_big_endian`; the slice must not be
/// longer than 32 bytes (the outside function panics otherwise).
#[verifier::external_body]
pub(crate) fn u256_from_be(slice: &[u8]) -> (r: U256)
    requires
        slice@.len() <= 32,
    ensures
        u256_nat(r) == be_nat(slice@),
{
    U256::from_big_endian(slice)
}

/// Relies on `primitive_types::U256::to_big_endian`: the 32-byte big-endian
/// representation of the value.
#[verifier::external_body]
pub(crate) fn u256_to_be(a: &U256) -> (r: Vec<u8>)
    ensures
        r@.len() == 32,
        be_nat(r@) == u256_nat(*a),
{
    a.to_big_endian().to_vec()
}

/// Relies on `primitive_types::U256::full_mul`: the exact 512-bit product.
#[verifier::external_body]
pub(crate) fn u256_full_mul(a: U256, b: U256) -> (r: U512)
    ensures
        u512_nat(r) == u256_nat(a) * u256_nat(b),
{
    a.full_mul(b)
}

/// Relies on `primitive_types::U512`'s `From<U256>` impl.
#[verifier::external_body]
pub(crate) fn u512_of(a: U256) -> (r: U512)
    ensures
        u512_nat(r) == u256_nat(a),
{
    U512::from(a)
}

/// Relies on `primitive_types::U512::overflowing_add`: addition modulo 2^512.
#[verifier::external_body]
pub(crate) fn u512_add(a: U512, b: U512) -> (r: U512)
    requires
        u512_nat(a) + u512_nat(b) < w256() * w256(),
    ensures
        u512_nat(r) == u512_nat(a) + u512_nat(b),
{
    a.overflowing_add(b).0
}

/// Relies on `primitive_types::U512::div_mod`: Euclidean remainder; the
/// divisor must not be zero (the outside function panics on it).
#[verifier::external_body]
pub(crate) fn u512_rem(a: U512, b: U512) -> (r: U512)
    requires
        u512_nat(b) != 0,
    ensures
        u512_nat(r) == u512_nat(a) % u512_nat(b),
{
    a.div_mod(b).1
}

/// Relies on `primitive_types::U256`'s `TryFrom<U512>` impl, which succeeds
/// exactly when the high limbs are zero.
#[verifier::external_body]
pub(crate) fn u256_of_u512(a: U512) -> (r: U256)
    requires
        u512_nat(a) < w256(),
    ensures
        u256_nat(r) == u512_nat(a),
{
    U256::try_from(a).expect("value fits 256 bits")
}

/// Reducing modulo 2^64 and then modulo 256 is reducing modulo 256.
pub proof fn lemma_mod_mod_256(n: nat)
    ensures
        (n % w64()) % 256 == n % 256,
{
    let q = n / w64();
    let r = n % w64();
    lemma_fundamental_div_mod(n as int, w64() as int);
    lemma_mod_bound(n as int, w64() as int);
    assert(n == q * w64() + r);
    let f: int = 0x100000000000000 as int;
    assert(q * w64() == (q * f) * 256) by (nonlinear_arith)
        requires
            w64() == 256 * f,
    ;
    lemma_mod_multiples_vanish(q * f, r as int, 256);
}

/// The word as a `usize` index, `None` when it does not fit a machine word.
pub fn u256_as_usize(v: &U256) -> (r: Option<usize>)
    ensures
        (u256_nat(*v) <= usize::MAX) <==> r is Some,
        r is Some ==> r->0 == u256_nat(*v),
{
    let bound = u256_from_limbs(0, 1, 0, 0);
    if u256_lt(v, &bound) {
        proof {
            lemma_small_mod(u256_nat(*v), w64());
        }
        let l = u256_low_u64(v);
        if l <= usize::MAX as u64 {
            Some(l as usize)
        } else {
            None
        }
    } else {
        None
    }
}

/// The word as a `usize`, saturated at the machine-word range end.
pub fn u256_as_usize_saturated(v: &U256) -> (r: usize)
    ensures
        u256_nat(*v) <= usize::MAX ==> r == u256_nat(*v),
        u256_nat(*v) > usize::MAX ==> r == usize::MAX,
{
    match u256_as_usize(v) {
        Some(x) => x,
        None => usize::MAX,
    }
}

/// The word as a `u64`, saturated at the 64-bit range end.
pub fn u256_as_u64_saturated(v: &U256) -> (r: u64)
    ensures
        u256_nat(*v) <= u64::MAX ==> r == u256_nat(*v),
        u256_nat(*v) > u64::MAX ==> r == u64::MAX,
{
    let bound = u256_from_limbs(0, 1, 0, 0);
    if u256_lt(v, &bound) {
        proof {
            lemma_small_mod(u256_nat(*v), w64());
        }
        u256_low_u64(v)
    } else {
        u64::MAX
    }
}

/// The least significant byte of a word.
pub(crate) fn u256_low_byte(v: &U256) -> (r: u8)
    ensures
        r == u256_nat(*v) % 256,
{
    let l = u256_low_u64(v);
    proof {
        lemma_mod_mod_256(u256_nat(*v));
    }
    (l % 256) as u8
}

/// The low `k` bits of a word: its value modulo 2^k, computed with a shift
/// up and back down.
pub(crate) fn u256_low_bits(a: U256, k: usize) -> (r: U256)
    requires
        0 < k <= 256,
    ensures
        u256_nat(r) == u256_nat(a) % pow2(k as nat),
{
    if k == 256 {
        proof {
            lemma_u256_nat_bound(a);
            lemma_pow2_256_val();
            lemma_small_mod(u256_nat(a), pow2(256));
        }
        a
    } else {
        let m: usize = 256 - k;
        let hi = u256_shl(a, m);
        let r = u256_shr(hi, m);
        proof {
            lemma_shift_up_down(u256_nat(a), m as nat, k as nat);
        }
        r
    }
}

pub proof fn lemma_pow2_256_val()
    ensures
        pow2(64) == w64(),
        pow2(128) == w128(),
        pow2(192) == w192(),
        pow2(255) == two_pow_255(),
        pow2(256) == w256(),
{
    lemma2_to64();
    vstd::arithmetic::power2::lemma2_to64_rest();
    lemma_pow2_adds(64, 64);
    lemma_pow2_adds(128, 64);
    lemma_pow2_adds(192, 63);
    lemma_pow2_adds(192, 64);
}

/// Shifting a value left by `m` modulo 2^256 and back right by `m` keeps
/// exactly the low `256 - m` bits.
pub proof fn lemma_shift_up_down(n: nat, m: nat, k: nat)
    requires
        m + k == 256,
        m < 256,
    ensures
        ((n * pow2(m)) % w256()) / pow2(m) == n % pow2(k),
{
    lemma_pow2_256_val();
    lemma_pow2_adds(k, m);
    let kk = pow2(k);
    let mm = pow2(m);
    vstd::arithmetic::power2::lemma_pow2_pos(k);
    vstd::arithmetic::power2::lemma_pow2_pos(m);
    lemma_fundamental_div_mod(n as int, kk as int);
    let q = n as int / kk as int;
    let r = n % kk;
    assert(n == q * kk + r);
    assert(n * mm == q * (kk * mm) + r * mm) by (nonlinear_arith)
        requires
            n == q * kk + r,
    ;
    assert(kk * mm == w256());
    lemma_mod_multiples_vanish(q, (r * mm) as int, w256() as int);
    lemma_mod_bound(n as int, kk as int);
    assert(r * mm < kk * mm) by (nonlinear_arith)
        requires
            r < kk,
            mm > 0,
    ;
    lemma_small_mod((r * mm) as nat, w256());
    assert((n * pow2(m)) % w256() == r * mm);
    lemma_div_by_multiple(r as int, mm as int);
    assert((r * mm) as int / mm as int == r);
}

} // verus!
