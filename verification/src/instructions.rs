//! The opcode handlers, grouped by family, and their shared helpers.

pub mod arithmetic;
pub mod bitwise;
pub mod control;
pub mod dispatch;
pub mod host;
pub mod host_env;
pub mod i256;
pub mod memory;
pub mod opcode;
pub mod stack;
pub mod system;
