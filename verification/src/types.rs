//! Value types crossing the interpreter/host boundary: addresses, call and
//! creation inputs, and the transaction/block environment.

use vstd::arithmetic::power2::pow2;
use vstd::prelude::*;

use primitive_types::U256;

use crate::u256::{u256_low_bits, u256_nat};

verus! {

/// A 160-bit account address, carried as the low bits of a word.
#[derive(Clone, Copy, Debug, PartialEq, Eq)]
pub struct Address {
    value: U256,
}

impl Address {
    pub closed spec fn view(&self) -> nat {
        u256_nat(self.value)
    }

    pub open spec fn wf(&self) -> bool {
        self@ < pow2(160)
    }

    /// The address named by the low 160 bits of `word`, as `CALL`, `BALANCE`
    /// and their kin read their operand.
    pub fn from_word(word: U256) -> (r: Address)
        ensures
            r@ == u256_nat(word) % pow2(160),
            r.wf(),
    {
        let masked = u256_low_bits(word, 160);
        proof {
            vstd::arithmetic::power2::lemma_pow2_pos(160);
            vstd::arithmetic::div_mod::lemma_mod_bound(
                u256_nat(word) as int,
                pow2(160) as int,
            );
        }
        Address { value: masked }
    }

    /// The word whose low 160 bits are the address, as `ADDRESS`, `CALLER`
    /// and their kin push it.
    pub fn to_word(&self) -> (r: U256)
        ensures
            u256_nat(r) == self@,
    {
        self.value
    }
}

/// Which call opcode created a frame.
#[derive(Clone, Copy, Debug, PartialEq, Eq, Structural)]
pub enum CallScheme {
    Call,
    CallCode,
    DelegateCall,
    StaticCall,
}

/// Which creation opcode asked for a new contract.
#[derive(Clone, Copy)]
pub enum CreateScheme {
    Create,
    Create2 { salt: U256 },
}

/// The identity a callee observes: where it runs, who called it, whose code
/// runs, and the apparent value.
#[derive(Clone, Copy)]
pub struct CallContext {
    pub address: Address,
    pub caller: Address,
    pub code_address: Address,
    pub apparent_value: U256,
    pub scheme: CallScheme,
}

/// An asset transfer a call performs before the callee runs.
#[derive(Clone, Copy)]
pub struct Transfer {
    pub source: Address,
    pub target: Address,
    pub value: U256,
}

/// Everything the host needs to run a nested call frame.
pub struct CallInputs {
    pub contract: Address,
    pub transfer: Transfer,
    pub input: Vec<u8>,
    pub gas_limit: u64,
    pub context: CallContext,
    pub is_static: bool,
}

/// Everything the host needs to run a contract creation.
pub struct CreateInputs {
    pub caller: Address,
    pub scheme: CreateScheme,
    pub value: U256,
    pub init_code: Vec<u8>,
    pub gas_limit: u64,
}

/// What the host reports back from `SELFDESTRUCT`.
#[derive(Clone, Copy)]
pub struct SelfDestructResult {
    pub had_value: bool,
    pub target_exists: bool,
    pub is_cold: bool,
    pub previously_destroyed: bool,
}

/// Chain-level configuration.
#[derive(Clone, Copy)]
pub struct CfgEnv {
    pub chain_id: U256,
}

/// The block being executed.
#[derive(Clone, Copy)]
pub struct BlockEnv {
    pub number: U256,
    pub coinbase: Address,
    pub timestamp: U256,
    pub difficulty: U256,
    pub basefee: U256,
    pub gas_limit: U256,
}

/// The transaction being executed.
#[derive(Clone, Copy)]
pub struct TxEnv {
    pub caller: Address,
    pub gas_price: U256,
}

/// The environment the host exposes to environment-reading opcodes.
#[derive(Clone, Copy)]
pub struct Env {
    pub cfg: CfgEnv,
    pub block: BlockEnv,
    pub tx: TxEnv,
}

impl Env {
    /// The per-gas price this transaction effectively pays.
    pub fn effective_gas_price(&self) -> (r: U256)
        ensures
            u256_nat(r) == u256_nat(self.tx.gas_price),
    {
        self.tx.gas_price
    }
}

} // verus!
