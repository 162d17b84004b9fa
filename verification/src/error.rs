//! Errors that contract execution and the dispatchable operations can return.

use vstd::prelude::*;

verus! {

/// Everything that can go wrong while storing code or running a contract.
#[derive(Clone, Copy, Debug, PartialEq, Eq, Structural)]
pub enum Error {
    /// A new schedule must have a greater version than the current one.
    InvalidScheduleVersion,
    /// Invalid combination of flags supplied to a call or delegate call.
    InvalidCallFlags,
    /// The executed contract exhausted its gas limit.
    OutOfGas,
    /// The output buffer supplied to a host function was too small.
    OutputBufferTooSmall,
    /// Performing the requested transfer failed.
    TransferFailed,
    /// The call stack is as deep as it may get.
    MaxCallDepthReached,
    /// No contract was found at the specified address.
    ContractNotFound,
    /// The supplied code exceeds the configured limit.
    CodeTooLarge,
    /// No code could be found at the supplied code hash.
    CodeNotFound,
    /// A buffer outside of sandbox memory was passed to a host function.
    OutOfBounds,
    /// Input passed to a host function failed to decode.
    DecodingFailed,
    /// Contract trapped during execution.
    ContractTrapped,
    /// The size of a value exceeds the configured limit.
    ValueTooLarge,
    /// A contract may not terminate while it is below itself on the call stack.
    TerminatedWhileReentrant,
    /// The input was forwarded to a callee and is no longer available.
    InputForwarded,
    /// The subject passed to the randomness host function exceeds the limit.
    RandomSubjectTooLong,
    /// An event carried more topics than the limit allows.
    TooManyTopics,
    /// The chain does not provide a chain extension.
    NoChainExtension,
    /// Removal of a contract failed because the deletion queue is full.
    DeletionQueueFull,
    /// A contract with the same account id already exists.
    DuplicateContract,
    /// A contract terminated itself in its constructor.
    TerminatedInConstructor,
    /// A debug message was not valid UTF-8.
    DebugMessageInvalidUTF8,
    /// A call tried to re-enter a contract that does not allow it.
    ReentranceDenied,
    /// The origin cannot pay the required storage deposit.
    StorageDepositNotEnoughFunds,
    /// More storage was created than the storage deposit limit allows.
    StorageDepositLimitExhausted,
    /// Code removal was denied because the code is still in use.
    CodeInUse,
    /// The contract ran to completion but decided to revert its storage changes.
    ContractReverted,
    /// The contract's code was found to be invalid.
    CodeRejected,
    /// An indeterministic code was used in a context where this is not permitted.
    Indeterministic,
}

impl Error {
    /// The code under which the error is reported to a contract. Every error has a code of
    /// its own.
    pub open spec fn spec_code(self) -> u32 {
        match self {
            Error::InvalidScheduleVersion => 0,
            Error::InvalidCallFlags => 1,
            Error::OutOfGas => 2,
            Error::OutputBufferTooSmall => 3,
            Error::TransferFailed => 4,
            Error::MaxCallDepthReached => 5,
            Error::ContractNotFound => 6,
            Error::CodeTooLarge => 7,
            Error::CodeNotFound => 8,
            Error::OutOfBounds => 9,
            Error::DecodingFailed => 10,
            Error::ContractTrapped => 11,
            Error::ValueTooLarge => 12,
            Error::TerminatedWhileReentrant => 13,
            Error::InputForwarded => 14,
            Error::RandomSubjectTooLong => 15,
            Error::TooManyTopics => 16,
            Error::NoChainExtension => 17,
            Error::DeletionQueueFull => 18,
            Error::DuplicateContract => 19,
            Error::TerminatedInConstructor => 20,
            Error::DebugMessageInvalidUTF8 => 21,
            Error::ReentranceDenied => 22,
            Error::StorageDepositNotEnoughFunds => 23,
            Error::StorageDepositLimitExhausted => 24,
            Error::CodeInUse => 25,
            Error::ContractReverted => 26,
            Error::CodeRejected => 27,
            Error::Indeterministic => 28,
        }
    }

    /// The code under which the error is reported to a contract.
    pub fn code(&self) -> (c: u32)
        ensures
            c == self.spec_code(),
    {
        match self {
            Error::InvalidScheduleVersion => 0,
            Error::InvalidCallFlags => 1,
            Error::OutOfGas => 2,
            Error::OutputBufferTooSmall => 3,
            Error::TransferFailed => 4,
            Error::MaxCallDepthReached => 5,
            Error::ContractNotFound => 6,
            Error::CodeTooLarge => 7,
            Error::CodeNotFound => 8,
            Error::OutOfBounds => 9,
            Error::DecodingFailed => 10,
            Error::ContractTrapped => 11,
            Error::ValueTooLarge => 12,
            Error::TerminatedWhileReentrant => 13,
            Error::InputForwarded => 14,
            Error::RandomSubjectTooLong => 15,
            Error::TooManyTopics => 16,
            Error::NoChainExtension => 17,
            Error::DeletionQueueFull => 18,
            Error::DuplicateContract => 19,
            Error::TerminatedInConstructor => 20,
            Error::DebugMessageInvalidUTF8 => 21,
            Error::ReentranceDenied => 22,
            Error::StorageDepositNotEnoughFunds => 23,
            Error::StorageDepositLimitExhausted => 24,
            Error::CodeInUse => 25,
            Error::ContractReverted => 26,
            Error::CodeRejected => 27,
            Error::Indeterministic => 28,
        }
    }
}

/// Different errors are reported under different codes.
pub proof fn lemma_error_codes_are_distinct(a: Error, b: Error)
    requires
        a.spec_code() == b.spec_code(),
    ensures
        a == b,
{
}

/// Error of a dispatchable operation.
#[derive(Clone, Copy, Debug, PartialEq, Eq, Structural)]
pub enum DispatchError {
    /// The origin is not allowed to perform the operation.
    BadOrigin,
    /// The operation itself failed.
    Contract(Error),
}

/// Who is to blame for a failed execution.
#[derive(Clone, Copy, Debug, PartialEq, Eq, Structural)]
pub enum ErrorOrigin {
    /// The caller supplied arguments under which the callee could not even start.
    Caller,
    /// The error happened while the callee was running.
    Callee,
}

/// An error together with the side that caused it.
#[derive(Clone, Copy, Debug, PartialEq, Eq, Structural)]
pub struct ExecError {
    pub error: Error,
    pub origin: ErrorOrigin,
}

} // verus!
