//! Core interpreter of an Ethereum Virtual Machine: a stack-based,
//! gas-metered bytecode machine over 256-bit words.
//!
//! The crate provides the call frame (`Interpreter`) over analyzed code:
//! its bounded operand stack, word-aligned expandable memory and gas
//! counters, the handlers of the full instruction set, and the dispatch
//! loop. State access goes through the `Host` trait, which a surrounding
//! execution engine implements; 256-bit arithmetic is carried by
//! `primitive_types` under exact contracts in the `u256` module.

pub mod bytecode;
pub mod gas;
pub mod host;
pub mod instructions;
pub mod interpreter;
pub mod machine;
pub mod memory;
pub mod ret;
pub mod stack;
pub mod specification;
pub mod types;
pub mod u256;

pub use bytecode::{Bytecode, Contract};
pub use gas::Gas;
pub use host::Host;
pub use interpreter::Interpreter;
pub use memory::Memory;
pub use ret::Return;
pub use stack::Stack;
pub use specification::{Spec, SpecId};
pub use types::{Address, CallContext, CallInputs, CallScheme, CreateInputs, CreateScheme, Env, SelfDestructResult, Transfer};
