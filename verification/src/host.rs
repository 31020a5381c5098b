//! The oracle a surrounding execution engine implements: account state,
//! storage, logs, nested frames and the environment.

use vstd::prelude::*;

use primitive_types::U256;

use crate::gas::Gas;
use crate::interpreter::Interpreter;
use crate::ret::Return;
use crate::types::{Address, CallInputs, CreateInputs, Env, SelfDestructResult};

verus! {

/// Everything the interpreter asks of the outside world. `None` from a
/// state accessor signals an unrecoverable backend failure, surfaced as
/// `FatalExternalError`. Nothing is promised about the answers: the opcode
/// handlers state what holds of the frame whatever comes back.
pub trait Host {
    /// Inspection hook before an opcode runs; anything but `Continue` stops
    /// the frame. A hook may rewrite the frame but must leave it well-formed.
    fn step(&mut self, interp: &mut Interpreter) -> (r: Return)
        requires
            old(interp).wf(),
        ensures
            final(interp).wf(),
            final(interp).gas == old(interp).gas,
    ;

    /// Inspection hook after an opcode ran, given its outcome; the returned
    /// code replaces it. A hook may rewrite the frame but must leave it
    /// well-formed.
    fn step_end(&mut self, interp: &mut Interpreter, ret: Return) -> (r: Return)
        requires
            old(interp).wf_loop(),
        ensures
            final(interp).wf_loop(),
            final(interp).gas == old(interp).gas,
            r == Return::Continue ==> final(interp).wf(),
    ;

    /// Transaction, block and chain configuration.
    fn env(&mut self) -> Env;

    /// `(is_cold, exists)` of an account.
    fn load_account(&mut self, address: Address) -> Option<(bool, bool)>;

    /// `(balance, is_cold)` of an account.
    fn balance(&mut self, address: Address) -> Option<(U256, bool)>;

    /// `(code, is_cold)` of an account.
    fn code(&mut self, address: Address) -> Option<(Vec<u8>, bool)>;

    /// `(code hash, is_cold)` of an account.
    fn code_hash(&mut self, address: Address) -> Option<(U256, bool)>;

    /// The hash of a recent block.
    fn block_hash(&mut self, number: U256) -> Option<U256>;

    /// `(value, is_cold)` of a storage slot of an account.
    fn sload(&mut self, address: Address, index: U256) -> Option<(U256, bool)>;

    /// Write a storage slot: `(original, old, new, is_cold)`.
    fn sstore(&mut self, address: Address, index: U256, value: U256) -> Option<
        (U256, U256, U256, bool),
    >;

    /// Emit a log record.
    fn log(&mut self, address: Address, topics: Vec<U256>, data: Vec<u8>);

    /// Mark an account destroyed, crediting the target.
    fn selfdestruct(&mut self, address: Address, target: Address) -> Option<SelfDestructResult>;

    /// Run a contract creation in a nested frame.
    fn create(&mut self, inputs: &mut CreateInputs) -> (Return, Option<Address>, Gas, Vec<u8>);

    /// Run a call in a nested frame.
    fn call(&mut self, inputs: &mut CallInputs) -> (Return, Gas, Vec<u8>);
}

} // verus!
