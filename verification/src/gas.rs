//! Gas bookkeeping and the fork-dependent cost formulas that the opcode
//! handlers charge at run time (gas blocks carry the constant parts).

use vstd::prelude::*;

use primitive_types::U256;

use crate::specification::SpecId;
use crate::u256::{u256_eq, u256_is_zero, u256_nat};

verus! {

pub const ZERO: u64 = 0;
pub const BASE: u64 = 2;
pub const VERYLOW: u64 = 3;
pub const LOW: u64 = 5;
pub const MID: u64 = 8;
pub const HIGH: u64 = 10;
pub const JUMPDEST: u64 = 1;
pub const SELFDESTRUCT: i64 = 24000;
pub const CREATE: u64 = 32000;
pub const CALLVALUE: u64 = 9000;
pub const NEWACCOUNT: u64 = 25000;
pub const CALL_STIPEND: u64 = 2300;
pub const SHA3: u64 = 30;
pub const SHA3WORD: u64 = 6;
pub const COPY: u64 = 3;
pub const LOGDATA: u64 = 8;
pub const LOGTOPIC: u64 = 375;
pub const SSTORE_SET: u64 = 20000;
pub const SSTORE_RESET: u64 = 5000;
pub const REFUND_SSTORE_CLEARS: i64 = 15000;
pub const COLD_SLOAD_COST: u64 = 2100;
pub const COLD_ACCOUNT_ACCESS_COST: u64 = 2600;
pub const WARM_STORAGE_READ_COST: u64 = 100;

/// The gas counters of one frame: the limit it started with, what is still
/// left, and the accumulated refund granted at the end by the caller.
pub struct Gas {
    limit: u64,
    remaining: u64,
    refunded: i64,
}

impl Gas {
    pub closed spec fn wf(&self) -> bool {
        self.remaining <= self.limit
    }

    /// What well-formedness guarantees, for use outside this module.
    pub proof fn lemma_wf(&self)
        requires
            self.wf(),
        ensures
            self.remaining_spec() <= self.limit_spec(),
    {
    }

    pub closed spec fn limit_spec(&self) -> u64 {
        self.limit
    }

    pub closed spec fn remaining_spec(&self) -> u64 {
        self.remaining
    }

    pub closed spec fn refunded_spec(&self) -> i64 {
        self.refunded
    }

    pub fn new(limit: u64) -> (r: Gas)
        ensures
            r.wf(),
            r.limit_spec() == limit,
            r.remaining_spec() == limit,
            r.refunded_spec() == 0,
    {
        Gas { limit, remaining: limit, refunded: 0 }
    }

    pub fn limit(&self) -> (r: u64)
        ensures
            r == self.limit_spec(),
    {
        self.limit
    }

    pub fn remaining(&self) -> (r: u64)
        ensures
            r == self.remaining_spec(),
    {
        self.remaining
    }

    pub fn refunded(&self) -> (r: i64)
        ensures
            r == self.refunded_spec(),
    {
        self.refunded
    }

    /// Gas consumed so far.
    pub fn spent(&self) -> (r: u64)
        requires
            self.wf(),
        ensures
            r == self.limit_spec() - self.remaining_spec(),
    {
        self.limit - self.remaining
    }

    /// Charge `cost`; `false` (and no change) when not enough gas is left.
    pub fn record_cost(&mut self, cost: u64) -> (r: bool)
        requires
            old(self).wf(),
        ensures
            final(self).wf(),
            final(self).limit_spec() == old(self).limit_spec(),
            final(self).refunded_spec() == old(self).refunded_spec(),
            cost <= old(self).remaining_spec() ==> r && final(self).remaining_spec() == old(self).remaining_spec() - cost,
            cost > old(self).remaining_spec() ==> !r && *final(self) == *old(self),
    {
        if cost <= self.remaining {
            self.remaining = self.remaining - cost;
            true
        } else {
            false
        }
    }

    /// Hand back gas a sub-call did not use. The caller keeps `returned`
    /// within what it charged for the sub-call, so the limit is never
    /// exceeded.
    pub fn erase_cost(&mut self, returned: u64) -> (r: ())
        requires
            old(self).wf(),
            old(self).remaining_spec() + returned <= old(self).limit_spec(),
        ensures
            final(self).wf(),
            final(self).limit_spec() == old(self).limit_spec(),
            final(self).refunded_spec() == old(self).refunded_spec(),
            final(self).remaining_spec() == old(self).remaining_spec() + returned,
    {
        self.remaining = self.remaining + returned;
    }

    /// Accumulate a refund, which may be negative under the net-refund
    /// schedules; the counter saturates at the `i64` range ends.
    pub fn record_refund(&mut self, refund: i64) -> (r: ())
        requires
            old(self).wf(),
        ensures
            final(self).wf(),
            final(self).limit_spec() == old(self).limit_spec(),
            final(self).remaining_spec() == old(self).remaining_spec(),
            final(self).refunded_spec() == clamp_i64(old(self).refunded_spec() + refund),
    {
        self.refunded = saturating_add_i64(self.refunded, refund);
    }
}

pub open spec fn clamp_i64(v: int) -> i64 {
    if v > i64::MAX {
        i64::MAX
    } else if v < i64::MIN {
        i64::MIN
    } else {
        v as i64
    }
}

pub fn saturating_add_i64(a: i64, b: i64) -> (r: i64)
    ensures
        r == clamp_i64(a + b),
{
    if b >= 0 {
        if a <= i64::MAX - b {
            a + b
        } else {
            i64::MAX
        }
    } else {
        if a >= i64::MIN - b {
            a + b
        } else {
            i64::MIN
        }
    }
}

/// Linear-plus-quadratic price of having grown memory to `words` 32-byte
/// words, saturated at the `u64` range end.
pub open spec fn memory_gas_spec(words: nat) -> nat {
    let total = 3 * words + (words * words) / 512;
    if total > u64::MAX {
        u64::MAX as nat
    } else {
        total
    }
}

pub fn memory_gas(words: u64) -> (r: u64)
    ensures
        r == memory_gas_spec(words as nat),
{
    let w = words as u128;
    proof {
        assert(w * w <= 0xffffffffffffffff * 0xffffffffffffffff) by (nonlinear_arith)
            requires
                w <= 0xffffffffffffffff,
        ;
    }
    let total: u128 = 3u128 * w + (w * w) / 512u128;
    if total > u64::MAX as u128 {
        u64::MAX
    } else {
        total as u64
    }
}

/// Growing memory never makes its price smaller.
pub proof fn lemma_memory_gas_mono(w1: nat, w2: nat)
    requires
        w1 <= w2,
    ensures
        memory_gas_spec(w1) <= memory_gas_spec(w2),
{
    assert(w1 * w1 <= w2 * w2) by (nonlinear_arith)
        requires
            w1 <= w2,
    ;
    vstd::arithmetic::div_mod::lemma_div_is_ordered((w1 * w1) as int, (w2 * w2) as int, 512);
}

/// 32-byte words needed to hold `len` bytes.
pub open spec fn words_of(len: nat) -> nat {
    (len + 31) / 32
}

/// Dynamic cost of hashing `len` bytes: 30 plus 6 per word; `None` when the
/// figure does not fit `u64`.
pub open spec fn sha3_cost_spec(len: nat) -> Option<u64> {
    let total = 30 + 6 * words_of(len);
    if total > u64::MAX {
        None
    } else {
        Some(total as u64)
    }
}

pub fn sha3_cost(len: u64) -> (r: Option<u64>)
    ensures
        r == sha3_cost_spec(len as nat),
{
    let words: u64 = len / 32 + if len % 32 > 0 {
        1
    } else {
        0
    };
    assert(words == words_of(len as nat));
    match SHA3WORD.checked_mul(words) {
        Some(w) => SHA3.checked_add(w),
        None => None,
    }
}

/// Dynamic cost of a copying opcode: 3 per word copied.
pub open spec fn copy_cost_spec(len: nat) -> Option<u64> {
    let total = 3 * words_of(len);
    if total > u64::MAX {
        None
    } else {
        Some(total as u64)
    }
}

pub fn verylowcopy_cost(len: u64) -> (r: Option<u64>)
    ensures
        r == copy_cost_spec(len as nat),
{
    let words: u64 = len / 32 + if len % 32 > 0 {
        1
    } else {
        0
    };
    assert(words == words_of(len as nat));
    COPY.checked_mul(words)
}

/// Dynamic cost of `EXTCODECOPY`: the copy cost plus the cold-account delta.
pub open spec fn extcodecopy_cost_spec(spec_id: u8, len: nat, is_cold: bool) -> Option<u64> {
    let cold: nat = if SpecId::BERLIN.enabled_in_spec(spec_id) && is_cold {
        (COLD_ACCOUNT_ACCESS_COST - WARM_STORAGE_READ_COST) as nat
    } else {
        0
    };
    let total = cold + 3 * words_of(len);
    if total > u64::MAX {
        None
    } else {
        Some(total as u64)
    }
}

pub fn extcodecopy_cost(spec_id: u8, len: u64, is_cold: bool) -> (r: Option<u64>)
    ensures
        r == extcodecopy_cost_spec(spec_id, len as nat, is_cold),
{
    let words: u64 = len / 32 + if len % 32 > 0 {
        1
    } else {
        0
    };
    assert(words == words_of(len as nat));
    let cold: u64 = if SpecId::BERLIN.enabled_in(spec_id) && is_cold {
        COLD_ACCOUNT_ACCESS_COST - WARM_STORAGE_READ_COST
    } else {
        0
    };
    match COPY.checked_mul(words) {
        Some(w) => cold.checked_add(w),
        None => None,
    }
}

/// Dynamic cost of `LOG`: 375 per topic plus 8 per data byte.
pub open spec fn log_cost_spec(n: u8, len: nat) -> Option<u64> {
    let total = 375 * (n as nat) + 8 * len;
    if total > u64::MAX {
        None
    } else {
        Some(total as u64)
    }
}

pub fn log_cost(n: u8, len: u64) -> (r: Option<u64>)
    ensures
        r == log_cost_spec(n, len as nat),
{
    match LOGDATA.checked_mul(len) {
        Some(d) => (LOGTOPIC * n as u64).checked_add(d),
        None => None,
    }
}

/// Full cost of `BALANCE` under the active fork.
pub open spec fn balance_cost_spec(spec_id: u8, is_cold: bool) -> u64 {
    if SpecId::BERLIN.enabled_in_spec(spec_id) {
        if is_cold {
            COLD_ACCOUNT_ACCESS_COST
        } else {
            WARM_STORAGE_READ_COST
        }
    } else if SpecId::ISTANBUL.enabled_in_spec(spec_id) {
        700
    } else if SpecId::TANGERINE.enabled_in_spec(spec_id) {
        400
    } else {
        20
    }
}

pub fn balance_cost(spec_id: u8, is_cold: bool) -> (r: u64)
    ensures
        r == balance_cost_spec(spec_id, is_cold),
{
    if SpecId::BERLIN.enabled_in(spec_id) {
        if is_cold {
            COLD_ACCOUNT_ACCESS_COST
        } else {
            WARM_STORAGE_READ_COST
        }
    } else if SpecId::ISTANBUL.enabled_in(spec_id) {
        700
    } else if SpecId::TANGERINE.enabled_in(spec_id) {
        400
    } else {
        20
    }
}

/// Full cost of `SLOAD` under the active fork.
pub open spec fn sload_cost_spec(spec_id: u8, is_cold: bool) -> u64 {
    if SpecId::BERLIN.enabled_in_spec(spec_id) {
        if is_cold {
            COLD_SLOAD_COST
        } else {
            WARM_STORAGE_READ_COST
        }
    } else if SpecId::ISTANBUL.enabled_in_spec(spec_id) {
        800
    } else if SpecId::TANGERINE.enabled_in_spec(spec_id) {
        200
    } else {
        50
    }
}

pub fn sload_cost(spec_id: u8, is_cold: bool) -> (r: u64)
    ensures
        r == sload_cost_spec(spec_id, is_cold),
{
    if SpecId::BERLIN.enabled_in(spec_id) {
        if is_cold {
            COLD_SLOAD_COST
        } else {
            WARM_STORAGE_READ_COST
        }
    } else if SpecId::ISTANBUL.enabled_in(spec_id) {
        800
    } else if SpecId::TANGERINE.enabled_in(spec_id) {
        200
    } else {
        50
    }
}

/// Cost of `SSTORE` under the EIP-2200 family of schedules, `None` when the
/// Istanbul low-gas sentry rejects the write.
pub open spec fn sstore_cost_spec(
    spec_id: u8,
    original: nat,
    current: nat,
    new: nat,
    gas_remaining: u64,
    is_cold: bool,
) -> Option<u64> {
    if SpecId::ISTANBUL.enabled_in_spec(spec_id) && gas_remaining <= CALL_STIPEND {
        None
    } else if SpecId::BERLIN.enabled_in_spec(spec_id) {
        let base: u64 = if new == current {
            WARM_STORAGE_READ_COST
        } else if original == current && original == 0 {
            SSTORE_SET
        } else if original == current {
            (SSTORE_RESET - COLD_SLOAD_COST) as u64
        } else {
            WARM_STORAGE_READ_COST
        };
        if is_cold {
            Some((base + COLD_SLOAD_COST) as u64)
        } else {
            Some(base)
        }
    } else if SpecId::ISTANBUL.enabled_in_spec(spec_id) {
        if new == current {
            Some(800)
        } else if original == current && original == 0 {
            Some(SSTORE_SET)
        } else if original == current {
            Some(SSTORE_RESET)
        } else {
            Some(800)
        }
    } else {
        if current == 0 && new != 0 {
            Some(SSTORE_SET)
        } else {
            Some(SSTORE_RESET)
        }
    }
}

pub fn sstore_cost(
    spec_id: u8,
    original: &U256,
    current: &U256,
    new: &U256,
    gas_remaining: u64,
    is_cold: bool,
) -> (r: Option<u64>)
    ensures
        r == sstore_cost_spec(
            spec_id,
            u256_nat(*original),
            u256_nat(*current),
            u256_nat(*new),
            gas_remaining,
            is_cold,
        ),
{
    let original_is_current = u256_eq(original, current);
    let original_is_zero = u256_is_zero(original);
    let new_is_current = u256_eq(new, current);
    let current_is_zero = u256_is_zero(current);
    let new_is_zero = u256_is_zero(new);
    if SpecId::ISTANBUL.enabled_in(spec_id) && gas_remaining <= CALL_STIPEND {
        None
    } else if SpecId::BERLIN.enabled_in(spec_id) {
        let base: u64 = if new_is_current {
            WARM_STORAGE_READ_COST
        } else if original_is_current && original_is_zero {
            SSTORE_SET
        } else if original_is_current {
            SSTORE_RESET - COLD_SLOAD_COST
        } else {
            WARM_STORAGE_READ_COST
        };
        if is_cold {
            Some(base + COLD_SLOAD_COST)
        } else {
            Some(base)
        }
    } else if SpecId::ISTANBUL.enabled_in(spec_id) {
        if new_is_current {
            Some(800)
        } else if original_is_current && original_is_zero {
            Some(SSTORE_SET)
        } else if original_is_current {
            Some(SSTORE_RESET)
        } else {
            Some(800)
        }
    } else {
        if current_is_zero && !new_is_zero {
            Some(SSTORE_SET)
        } else {
            Some(SSTORE_RESET)
        }
    }
}

/// Refund granted by `SSTORE` under the EIP-2200 / EIP-3529 schedules.
pub open spec fn sstore_refund_spec(spec_id: u8, original: nat, current: nat, new: nat) -> i64 {
    if SpecId::ISTANBUL.enabled_in_spec(spec_id) {
        let clears: i64 = if SpecId::LONDON.enabled_in_spec(spec_id) {
            4800
        } else {
            15000
        };
        if current == new {
            0
        } else if original == current && new == 0 {
            clears
        } else {
            let a: int = if original != 0 && current == 0 {
                -clears
            } else if original != 0 && new == 0 {
                clears as int
            } else {
                0
            };
            let sload: int = if SpecId::BERLIN.enabled_in_spec(spec_id) {
                WARM_STORAGE_READ_COST as int
            } else {
                800
            };
            let reset: int = if SpecId::BERLIN.enabled_in_spec(spec_id) {
                SSTORE_RESET - COLD_SLOAD_COST
            } else {
                SSTORE_RESET as int
            };
            let b: int = if original == new && original == 0 {
                SSTORE_SET - sload
            } else if original == new {
                reset - sload
            } else {
                0
            };
            (a + b) as i64
        }
    } else {
        if current != 0 && new == 0 {
            REFUND_SSTORE_CLEARS
        } else {
            0
        }
    }
}

pub fn sstore_refund(spec_id: u8, original: &U256, current: &U256, new: &U256) -> (r: i64)
    ensures
        r == sstore_refund_spec(spec_id, u256_nat(*original), u256_nat(*current), u256_nat(*new)),
{
    let original_is_current = u256_eq(original, current);
    let original_is_zero = u256_is_zero(original);
    let original_is_new = u256_eq(original, new);
    let new_is_current = u256_eq(new, current);
    let current_is_zero = u256_is_zero(current);
    let new_is_zero = u256_is_zero(new);
    if SpecId::ISTANBUL.enabled_in(spec_id) {
        let clears: i64 = if SpecId::LONDON.enabled_in(spec_id) {
            4800
        } else {
            15000
        };
        if new_is_current {
            0
        } else if original_is_current && new_is_zero {
            clears
        } else {
            let a: i64 = if !original_is_zero && current_is_zero {
                -clears
            } else if !original_is_zero && new_is_zero {
                clears
            } else {
                0
            };
            let sload: i64 = if SpecId::BERLIN.enabled_in(spec_id) {
                WARM_STORAGE_READ_COST as i64
            } else {
                800
            };
            let reset: i64 = if SpecId::BERLIN.enabled_in(spec_id) {
                (SSTORE_RESET - COLD_SLOAD_COST) as i64
            } else {
                SSTORE_RESET as i64
            };
            let b: i64 = if original_is_new && original_is_zero {
                SSTORE_SET as i64 - sload
            } else if original_is_new {
                reset - sload
            } else {
                0
            };
            a + b
        }
    } else {
        if !current_is_zero && new_is_zero {
            REFUND_SSTORE_CLEARS
        } else {
            0
        }
    }
}

/// Account-access part plus transfer and new-account surcharges of a call.
pub open spec fn call_cost_spec(
    spec_id: u8,
    transfers_value: bool,
    is_new: bool,
    is_cold: bool,
    is_call_or_callcode: bool,
    is_call_or_staticcall: bool,
) -> u64 {
    let access: u64 = if SpecId::BERLIN.enabled_in_spec(spec_id) {
        if is_cold {
            COLD_ACCOUNT_ACCESS_COST
        } else {
            WARM_STORAGE_READ_COST
        }
    } else if SpecId::TANGERINE.enabled_in_spec(spec_id) {
        700
    } else {
        40
    };
    let transfer: u64 = if is_call_or_callcode && transfers_value {
        CALLVALUE
    } else {
        0
    };
    let new_account: u64 = if is_call_or_staticcall && is_new && (!SpecId::SPURIOUS_DRAGON.enabled_in_spec(
        spec_id,
    ) || transfers_value) {
        NEWACCOUNT
    } else {
        0
    };
    (access + transfer + new_account) as u64
}

pub fn call_cost(
    spec_id: u8,
    transfers_value: bool,
    is_new: bool,
    is_cold: bool,
    is_call_or_callcode: bool,
    is_call_or_staticcall: bool,
) -> (r: u64)
    ensures
        r == call_cost_spec(
            spec_id,
            transfers_value,
            is_new,
            is_cold,
            is_call_or_callcode,
            is_call_or_staticcall,
        ),
{
    let access: u64 = if SpecId::BERLIN.enabled_in(spec_id) {
        if is_cold {
            COLD_ACCOUNT_ACCESS_COST
        } else {
            WARM_STORAGE_READ_COST
        }
    } else if SpecId::TANGERINE.enabled_in(spec_id) {
        700
    } else {
        40
    };
    let transfer: u64 = if is_call_or_callcode && transfers_value {
        CALLVALUE
    } else {
        0
    };
    let new_account: u64 = if is_call_or_staticcall && is_new && (!SpecId::SPURIOUS_DRAGON.enabled_in(
        spec_id,
    ) || transfers_value) {
        NEWACCOUNT
    } else {
        0
    };
    access + transfer + new_account
}

/// Dynamic cost of `EXP`: 10 or 50 (Spurious Dragon on) per byte of the
/// exponent, the fixed 10 sitting in the gas block.
pub open spec fn exp_cost_spec(spec_id: u8, exp_bits: nat) -> u64 {
    let per: u64 = if SpecId::SPURIOUS_DRAGON.enabled_in_spec(spec_id) {
        50
    } else {
        10
    };
    (per * ((exp_bits + 7) / 8)) as u64
}

pub fn exp_cost(spec_id: u8, exp_bits: usize) -> (r: u64)
    requires
        exp_bits <= 256,
    ensures
        r == exp_cost_spec(spec_id, exp_bits as nat),
{
    let per: u64 = if SpecId::SPURIOUS_DRAGON.enabled_in(spec_id) {
        50
    } else {
        10
    };
    per * ((exp_bits as u64 + 7) / 8)
}

/// Cost of `CREATE2`'s init-code hashing on top of the 32000 base.
pub open spec fn create2_cost_spec(len: nat) -> Option<u64> {
    let total = CREATE + 6 * words_of(len);
    if total > u64::MAX {
        None
    } else {
        Some(total as u64)
    }
}

pub fn create2_cost(len: u64) -> (r: Option<u64>)
    ensures
        r == create2_cost_spec(len as nat),
{
    let words: u64 = len / 32 + if len % 32 > 0 {
        1
    } else {
        0
    };
    assert(words == words_of(len as nat));
    match SHA3WORD.checked_mul(words) {
        Some(w) => CREATE.checked_add(w),
        None => None,
    }
}

/// Full cost of `SELFDESTRUCT` under the active fork.
pub open spec fn selfdestruct_cost_spec(
    spec_id: u8,
    had_value: bool,
    target_exists: bool,
    is_cold: bool,
) -> u64 {
    let should_charge_topup = if SpecId::SPURIOUS_DRAGON.enabled_in_spec(spec_id) {
        had_value && !target_exists
    } else {
        !target_exists
    };
    let topup: u64 = if SpecId::TANGERINE.enabled_in_spec(spec_id) && should_charge_topup {
        NEWACCOUNT
    } else {
        0
    };
    let base: u64 = if SpecId::TANGERINE.enabled_in_spec(spec_id) {
        5000
    } else {
        0
    };
    let cold: u64 = if SpecId::BERLIN.enabled_in_spec(spec_id) && is_cold {
        COLD_ACCOUNT_ACCESS_COST
    } else {
        0
    };
    (base + topup + cold) as u64
}

pub fn selfdestruct_cost(spec_id: u8, had_value: bool, target_exists: bool, is_cold: bool) -> (r:
    u64)
    ensures
        r == selfdestruct_cost_spec(spec_id, had_value, target_exists, is_cold),
{
    let should_charge_topup = if SpecId::SPURIOUS_DRAGON.enabled_in(spec_id) {
        had_value && !target_exists
    } else {
        !target_exists
    };
    let topup: u64 = if SpecId::TANGERINE.enabled_in(spec_id) && should_charge_topup {
        NEWACCOUNT
    } else {
        0
    };
    let base: u64 = if SpecId::TANGERINE.enabled_in(spec_id) {
        5000
    } else {
        0
    };
    let cold: u64 = if SpecId::BERLIN.enabled_in(spec_id) && is_cold {
        COLD_ACCOUNT_ACCESS_COST
    } else {
        0
    };
    base + topup + cold
}

/// The Tangerine 63/64 rule: what a parent may hand to a child out of its
/// remaining gas.
pub open spec fn forwarded_gas_spec(spec_id: u8, remaining: u64, stipulated: u64) -> u64 {
    if SpecId::TANGERINE.enabled_in_spec(spec_id) {
        let cap = (remaining - remaining / 64) as u64;
        if stipulated < cap {
            stipulated
        } else {
            cap
        }
    } else {
        stipulated
    }
}

pub fn forwarded_gas(spec_id: u8, remaining: u64, stipulated: u64) -> (r: u64)
    ensures
        r == forwarded_gas_spec(spec_id, remaining, stipulated),
        SpecId::TANGERINE.enabled_in_spec(spec_id) && stipulated > remaining ==> r == remaining
            - remaining / 64,
{
    if SpecId::TANGERINE.enabled_in(spec_id) {
        let cap = remaining - remaining / 64;
        if stipulated < cap {
            stipulated
        } else {
            cap
        }
    } else {
        stipulated
    }
}

} // verus!
