//! The typed failures of the engine.

use vstd::prelude::*;
use crate::types::{Identifier, ProgramId};

verus! {

/// Why a store operation was refused.
#[derive(Clone, Copy, Debug, PartialEq, Eq, Structural)]
pub enum MappingError {
    /// The program declares no mapping of that name.
    NotDeclared,
    /// The mapping was never initialized.
    NotInitialized,
    /// The mapping is initialized already.
    AlreadyInitialized,
    /// The mapping holds no value under the key.
    KeyNotFound,
    /// The mapping holds a value under the key already.
    KeyExists,
    /// A mutation was issued outside an atomic batch scope.
    NoOpenBatch,
}

/// Why a finalize command, or the binding of a register, failed.
#[derive(Clone, Copy, Debug, PartialEq, Eq, Structural)]
pub enum CommandError {
    /// A value does not belong to the type that its place asks for.
    TypeMismatch,
    /// A register is outside the type table, or is read before it is written.
    UndefinedRegister,
    /// A register that holds a value was written again.
    RegisterReassigned,
    /// The store refused the operation.
    Mapping(MappingError),
    /// The evaluation left the domain of an operation, as when integer
    /// arithmetic overflows.
    Fault,
}

/// Why the inputs of a finalize scope could not be bound to its registers.
#[derive(Clone, Copy, Debug, PartialEq, Eq, Structural)]
pub enum BindError {
    /// There are not as many inputs as registers to bind them to.
    CountMismatch { expected: usize, found: usize },
    /// The input at `index` was refused by its register.
    Register { index: usize, cause: CommandError },
}

/// The three kinds of failure.
#[derive(Clone, Copy, Debug, PartialEq, Eq, Structural)]
pub enum ErrorKind {
    /// Found before any mutation was issued.
    Validation,
    /// A store operation or a finalize command failed inside a batch scope.
    Execution,
    /// An internal fault during the evaluation of a command, caught at the
    /// boundary of that evaluation.
    FaultBoundary,
}

/// A failure, with the context in which it arose.
#[derive(Clone, Copy, Debug, PartialEq, Eq, Structural)]
pub enum VmError {
    /// The execution holds no transition.
    EmptyExecution,
    /// The store has an atomic batch scope open already.
    BatchAlreadyOpen,
    /// No stack is registered under the program identifier.
    ProgramNotFound { program_id: ProgramId },
    /// The program declares no function (or finalize scope) of that name.
    FunctionNotFound { program_id: ProgramId, function_name: Identifier },
    /// The number of values differs from the number that the function declares.
    InputCountMismatch {
        program_id: ProgramId,
        function_name: Identifier,
        expected: usize,
        found: usize,
    },
    /// The value at `index` does not belong to the declared input type.
    InputTypeMismatch { program_id: ProgramId, function_name: Identifier, index: usize },
    /// The execution does not hold as many transitions as its entry function calls.
    TransitionCountMismatch { expected: usize, found: usize },
    /// The function has a finalize scope and the transition records no inputs for it.
    MissingFinalizeInputs { program_id: ProgramId, function_name: Identifier },
    /// The request is not signed by its signer for its call.
    InvalidRequest { program_id: ProgramId, function_name: Identifier },
    /// The supply of random words ran out.
    RandomnessExhausted,
    /// The call stack holds no request to process.
    NoPendingRequest,
    /// An operand of the body of a function could not be read.
    Operand { program_id: ProgramId, function_name: Identifier, cause: CommandError },
    /// The authorization holds no request for a call, or one that is not for that
    /// function on those inputs.
    AuthorizationMismatch { program_id: ProgramId, function_name: Identifier },
    /// The execution under verification holds no transition for a call, or one
    /// that the call does not yield.
    TransitionMismatch { program_id: ProgramId, function_name: Identifier },
    /// A call chain grew beyond the limit on the number of calls.
    CallLimitExceeded { program_id: ProgramId, function_name: Identifier },
    /// The store refused to initialize a mapping.
    Mapping { program_id: ProgramId, mapping_name: Identifier, refusal: MappingError },
    /// The finalize input at `index` could not be bound to its register.
    InputBinding {
        program_id: ProgramId,
        function_name: Identifier,
        index: usize,
        cause: CommandError,
    },
    /// The finalize command at `command_index` failed.
    Command {
        program_id: ProgramId,
        function_name: Identifier,
        command_index: usize,
        cause: CommandError,
    },
}

impl VmError {
    /// The kind of a failure.
    pub open spec fn spec_kind(self) -> ErrorKind {
        match self {
            VmError::Mapping { .. } => ErrorKind::Execution,
            VmError::InputBinding { .. } => ErrorKind::Execution,
            VmError::Command { cause, .. } => if cause == CommandError::Fault {
                ErrorKind::FaultBoundary
            } else {
                ErrorKind::Execution
            },
            _ => ErrorKind::Validation,
        }
    }

    pub fn kind(&self) -> (k: ErrorKind)
        ensures
            k == self.spec_kind(),
    {
        match self {
            VmError::Mapping { .. } => ErrorKind::Execution,
            VmError::InputBinding { .. } => ErrorKind::Execution,
            VmError::Command { cause, .. } => if *cause == CommandError::Fault {
                ErrorKind::FaultBoundary
            } else {
                ErrorKind::Execution
            },
            _ => ErrorKind::Validation,
        }
    }
}

} // verus!
