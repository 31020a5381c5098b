//! Termination codes of a call frame.

use vstd::prelude::*;

verus! {

/// Everything a handler or a whole frame can report. `Continue` is only ever
/// handed from a handler to the dispatch loop; the remaining variants are
/// terminal. They fall into three classes: success (`Stop`, `Return`,
/// `SelfDestruct`), revert (`Revert`, `CallTooDeep`, `OutOfFund`) and error
/// (all the rest), which decide how the host treats the frame's side effects.
#[derive(Debug, Copy, Clone, PartialEq, Eq, Structural)]
pub enum Return {
    Continue,
    Stop,
    Return,
    SelfDestruct,
    Revert,
    CallTooDeep,
    OutOfFund,
    OutOfGas,
    OpcodeNotFound,
    CallNotAllowedInsideStatic,
    InvalidOpcode,
    InvalidJump,
    InvalidMemoryRange,
    NotActivated,
    StackUnderflow,
    StackOverflow,
    OutOfOffset,
    FatalExternalError,
    GasMaxFeeGreaterThanPriorityFee,
    GasPriceLessThenBasefee,
    CallerGasLimitMoreThenBlock,
    RejectCallerWithCode,
    LackOfFundForGasLimit,
    CreateCollision,
    OverflowPayment,
    PrecompileError,
    NonceOverflow,
    CreateContractLimit,
    CreateContractWithEF,
    StateChangeDuringStaticCall,
}

impl Return {
    /// The class of outcomes after which the host commits side effects.
    /// `Continue` is included because a sub-frame that ran to a plain stop
    /// reports success to its parent's call handler.
    pub open spec fn is_success_spec(self) -> bool {
        self is Continue || self is Stop || self is Return || self is SelfDestruct
    }

    /// The class of outcomes after which the host rolls side effects back but
    /// hands unused gas and revert data to the caller.
    pub open spec fn is_revert_spec(self) -> bool {
        self is Revert || self is CallTooDeep || self is OutOfFund
    }

    pub fn is_success(self) -> (r: bool)
        ensures
            r == self.is_success_spec(),
    {
        matches!(self, Return::Continue | Return::Stop | Return::Return | Return::SelfDestruct)
    }

    pub fn is_revert(self) -> (r: bool)
        ensures
            r == self.is_revert_spec(),
    {
        matches!(self, Return::Revert | Return::CallTooDeep | Return::OutOfFund)
    }

    /// Error outcomes: the frame consumed all gas and every side effect is
    /// rolled back.
    pub open spec fn is_error_spec(self) -> bool {
        !self.is_success_spec() && !self.is_revert_spec()
    }

    pub fn is_error(self) -> (r: bool)
        ensures
            r == self.is_error_spec(),
    {
        !self.is_success() && !self.is_revert()
    }
}

} // verus!
