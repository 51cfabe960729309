//! Finalization: the two entry points that change the public state.

use vstd::prelude::*;
use crate::command::spec_finalize;
use crate::deployment::{Deployment, DeploymentView, FunctionKey};
use crate::error::{BindError, VmError};
use crate::execution::{Execution, ExecutionView, Transition, TransitionView};
use crate::process::{Process, ProcessView};
use crate::program::{Command, Finalize, FinalizeView, ProgramView};
use crate::registers::{FinalizeRegisters, RegistersView};
use crate::stack::{spec_new_stack, Stack, StackView};
use crate::store::{FinalizeOperation, FinalizeStore, StoreState};
use crate::types::{Identifier, Value, ValueType};

verus! {

/// The stack of a deployment after the verifying keys from `from` on were
/// inserted, in order. A key for a function that the program does not declare
/// is an error.
pub open spec fn spec_insert_keys(stack: StackView, keys: Seq<FunctionKey>, from: int) -> Result<
    StackView,
    VmError,
>
    decreases keys.len() - from,
{
    if from < 0 || from >= keys.len() {
        Ok(stack)
    } else {
        match stack.with_verifying_key(keys[from].function_name, keys[from].verifying_key) {
            Err(e) => Err(e),
            Ok(next) => spec_insert_keys(next, keys, from + 1),
        }
    }
}

/// The stack that a deployment registers.
pub open spec fn spec_deployed_stack(process: ProcessView, deployment: DeploymentView) -> Result<
    StackView,
    VmError,
> {
    match spec_new_stack(process, deployment.program) {
        Err(e) => Err(e),
        Ok(stack) => spec_insert_keys(stack, deployment.verifying_keys, 0),
    }
}

/// The state of the store after the mappings from `from` on were initialized,
/// in declaration order. The first mapping that the store refuses decides the
/// error.
pub open spec fn spec_initialize_mappings(program: ProgramView, from: int, state: StoreState) -> Result<
    StoreState,
    VmError,
>
    decreases program.mappings.len() - from,
{
    if from < 0 || from >= program.mappings.len() {
        Ok(state)
    } else {
        match state.initialize(program.mapping_id(from)) {
            Err(refusal) => Err(
                VmError::Mapping {
                    program_id: program.id,
                    mapping_name: program.mappings[from].name,
                    refusal,
                },
            ),
            Ok(next) => spec_initialize_mappings(program, from + 1, next),
        }
    }
}

/// The operations of a deployment: one initialization for each declared
/// mapping, in declaration order.
pub open spec fn spec_initialize_operations(program: ProgramView) -> Seq<FinalizeOperation> {
    Seq::new(
        program.mappings.len(),
        |i: int| FinalizeOperation::InitializeMapping { mapping: program.mapping_id(i) },
    )
}

/// What the finalization of a deployment yields.
pub struct DeploymentEffect {
    pub stack: StackView,
    pub state: StoreState,
    pub operations: Seq<FinalizeOperation>,
}

/// The meaning of the finalization of a deployment, on a store whose committed
/// state is `state`. Everything that can be refused without the store is
/// settled first; a store with an open batch scope is refused next; then the
/// mappings are initialized.
pub open spec fn spec_finalize_deployment(
    process: ProcessView,
    in_batch: bool,
    state: StoreState,
    deployment: DeploymentView,
) -> Result<DeploymentEffect, VmError> {
    match spec_deployed_stack(process, deployment) {
        Err(e) => Err(e),
        Ok(stack) => if in_batch {
            Err(VmError::BatchAlreadyOpen)
        } else {
            match spec_initialize_mappings(deployment.program, 0, state) {
                Err(e) => Err(e),
                Ok(next) => Ok(
                    DeploymentEffect {
                        stack,
                        state: next,
                        operations: spec_initialize_operations(deployment.program),
                    },
                ),
            }
        },
    }
}

/// What a finalization leaves behind: the state of the store and the
/// operations that were applied, in the order in which the commands ran.
pub struct FinalizeEffect {
    pub state: StoreState,
    pub operations: Seq<FinalizeOperation>,
}

/// The operations so far, followed by the operation of one more command, if
/// it has one.
pub open spec fn spec_appended(operations: Seq<FinalizeOperation>, operation: Option<FinalizeOperation>) -> Seq<
    FinalizeOperation,
> {
    match operation {
        Some(op) => operations.push(op),
        None => operations,
    }
}

/// The meaning of the commands of a finalize scope from `from` on, in order.
/// The first command that fails decides the error, which names its index.
pub open spec fn spec_run_commands(
    program: ProgramView,
    function_name: Identifier,
    commands: Seq<Command>,
    from: int,
    in_batch: bool,
    state: StoreState,
    registers: RegistersView,
    operations: Seq<FinalizeOperation>,
) -> Result<FinalizeEffect, VmError>
    decreases commands.len() - from,
{
    if from < 0 || from >= commands.len() {
        Ok(FinalizeEffect { state, operations })
    } else {
        match spec_finalize(commands[from], program, in_batch, state, registers) {
            Err(cause) => Err(
                VmError::Command {
                    program_id: program.id,
                    function_name,
                    command_index: from as usize,
                    cause,
                },
            ),
            Ok(effect) => spec_run_commands(
                program,
                function_name,
                commands,
                from + 1,
                in_batch,
                effect.state,
                effect.registers,
                spec_appended(operations, effect.operation),
            ),
        }
    }
}

/// The meaning of a finalize scope on the recorded inputs of a transition:
/// fresh registers over the scope's type table, the inputs bound to the
/// declared registers, then the commands in order.
pub open spec fn spec_run_finalize(
    program: ProgramView,
    function_name: Identifier,
    finalize: FinalizeView,
    inputs: Seq<Value>,
    in_batch: bool,
    state: StoreState,
    operations: Seq<FinalizeOperation>,
) -> Result<FinalizeEffect, VmError> {
    if finalize.inputs.len() != inputs.len() {
        Err(
            VmError::InputCountMismatch {
                program_id: program.id,
                function_name,
                expected: finalize.inputs.len() as usize,
                found: inputs.len() as usize,
            },
        )
    } else {
        match RegistersView::created(finalize.register_types).bind(
            finalize.inputs,
            inputs,
            inputs.len(),
        ) {
            Err((index, cause)) => Err(
                VmError::InputBinding {
                    program_id: program.id,
                    function_name,
                    index: index as usize,
                    cause,
                },
            ),
            Ok(registers) => spec_run_commands(
                program,
                function_name,
                finalize.commands,
                0,
                in_batch,
                state,
                registers,
                operations,
            ),
        }
    }
}

/// The meaning of the finalization of one transition: nothing for a function
/// without a finalize scope, and the scope's meaning on the recorded inputs
/// otherwise.
pub open spec fn spec_finalize_transition(
    process: ProcessView,
    transition: TransitionView,
    in_batch: bool,
    state: StoreState,
    operations: Seq<FinalizeOperation>,
) -> Result<FinalizeEffect, VmError> {
    match process.stack(transition.program_id) {
        None => Err(VmError::ProgramNotFound { program_id: transition.program_id }),
        Some(stack) => match stack.function(transition.function_name) {
            Err(e) => Err(e),
            Ok(function) => match function.finalize {
                None => Ok(FinalizeEffect { state, operations }),
                Some(finalize) => match transition.finalize {
                    None => Err(
                        VmError::MissingFinalizeInputs {
                            program_id: transition.program_id,
                            function_name: transition.function_name,
                        },
                    ),
                    Some(inputs) => spec_run_finalize(
                        stack.program,
                        transition.function_name,
                        finalize,
                        inputs,
                        in_batch,
                        state,
                        operations,
                    ),
                },
            },
        },
    }
}

/// The meaning of the finalization of the transitions from `from` on, in the
/// order of the list.
pub open spec fn spec_finalize_transitions(
    process: ProcessView,
    transitions: Seq<TransitionView>,
    from: int,
    in_batch: bool,
    state: StoreState,
    operations: Seq<FinalizeOperation>,
) -> Result<FinalizeEffect, VmError>
    decreases transitions.len() - from,
{
    if from < 0 || from >= transitions.len() {
        Ok(FinalizeEffect { state, operations })
    } else {
        match spec_finalize_transition(process, transitions[from], in_batch, state, operations) {
            Err(e) => Err(e),
            Ok(effect) => spec_finalize_transitions(
                process,
                transitions,
                from + 1,
                in_batch,
                effect.state,
                effect.operations,
            ),
        }
    }
}

/// The number of transitions that an execution must hold: the number of calls
/// of its entry function.
pub open spec fn spec_expected_transitions(process: ProcessView, execution: ExecutionView) -> Result<
    usize,
    VmError,
> {
    if execution.transitions.len() == 0 {
        Err(VmError::EmptyExecution)
    } else {
        let entry = execution.transitions.last();
        match process.stack(entry.program_id) {
            None => Err(VmError::ProgramNotFound { program_id: entry.program_id }),
            Some(stack) => stack.number_of_calls(entry.function_name),
        }
    }
}

/// The meaning of the finalization of an execution, on a store whose committed
/// state is `state`. The number of transitions is settled first; a store with
/// an open batch scope is refused next; then the transitions are finalized in
/// the order of the list, inside one scope.
pub open spec fn spec_finalize_execution(
    process: ProcessView,
    in_batch: bool,
    state: StoreState,
    execution: ExecutionView,
) -> Result<FinalizeEffect, VmError> {
    match spec_expected_transitions(process, execution) {
        Err(e) => Err(e),
        Ok(expected) => if expected != execution.transitions.len() {
            Err(
                VmError::TransitionCountMismatch {
                    expected,
                    found: execution.transitions.len() as usize,
                },
            )
        } else if in_batch {
            Err(VmError::BatchAlreadyOpen)
        } else {
            spec_finalize_transitions(
                process,
                execution.transitions,
                0,
                true,
                state,
                Seq::empty(),
            )
        },
    }
}

/// How the result of the finalization of an execution, and the committed
/// state of the store after it, follow from the process, the execution and
/// the committed state before it: on success they are what the finalization
/// means, and on an error the state is what it was.
pub open spec fn spec_execution_finalized(
    process: ProcessView,
    in_batch: bool,
    state: StoreState,
    execution: ExecutionView,
    state_after: StoreState,
    r: Result<Seq<FinalizeOperation>, VmError>,
) -> bool {
    match r {
        Ok(operations) => spec_finalize_execution(process, in_batch, state, execution) == Ok::<
            FinalizeEffect,
            VmError,
        >(FinalizeEffect { state: state_after, operations }),
        Err(e) => {
            &&& spec_finalize_execution(process, in_batch, state, execution) == Err::<
                FinalizeEffect,
                VmError,
            >(e)
            &&& state_after == state
        },
    }
}

/// Inserts the verifying keys of a deployment into its stack.
fn insert_keys(stack: &mut Stack, keys: &Vec<FunctionKey>) -> (r: Result<(), VmError>)
    requires
        old(stack).wf(),
    ensures
        final(stack).wf(),
        match r {
            Ok(_) => spec_insert_keys(old(stack)@, keys@, 0) == Ok::<StackView, VmError>(
                final(stack)@,
            ),
            Err(e) => spec_insert_keys(old(stack)@, keys@, 0) == Err::<StackView, VmError>(e),
        },
{
    let mut i: usize = 0;
    while i < keys.len()
        invariant
            i <= keys.len(),
            stack.wf(),
            spec_insert_keys(old(stack)@, keys@, 0) == spec_insert_keys(stack@, keys@, i as int),
        decreases keys.len() - i,
    {
        match stack.insert_verifying_key(keys[i].function_name, keys[i].verifying_key) {
            Ok(_) => {},
            Err(e) => return Err(e),
        }
        i += 1;
    }
    Ok(())
}

/// Runs the commands of a finalize scope, in order, and appends the operations
/// of the mapping writes to `operations`.
fn run_commands(
    stack: &Stack,
    function_name: Identifier,
    commands: &Vec<Command>,
    store: &mut FinalizeStore,
    registers: &mut FinalizeRegisters,
    operations: &mut Vec<FinalizeOperation>,
) -> (r: Result<(), VmError>)
    requires
        old(store).wf(),
        old(registers).wf(),
    ensures
        final(store).wf(),
        final(registers).wf(),
        final(store)@ == old(store)@,
        final(store).in_batch() == old(store).in_batch(),
        match r {
            Ok(_) => spec_run_commands(
                stack@.program,
                function_name,
                commands@,
                0,
                old(store).in_batch(),
                old(store).current(),
                old(registers)@,
                old(operations)@,
            ) == Ok::<FinalizeEffect, VmError>(
                FinalizeEffect { state: final(store).current(), operations: final(operations)@ },
            ),
            Err(e) => spec_run_commands(
                stack@.program,
                function_name,
                commands@,
                0,
                old(store).in_batch(),
                old(store).current(),
                old(registers)@,
                old(operations)@,
            ) == Err::<FinalizeEffect, VmError>(e),
        },
{
    let mut i: usize = 0;
    while i < commands.len()
        invariant
            i <= commands.len(),
            store.wf(),
            registers.wf(),
            store@ == old(store)@,
            store.in_batch() == old(store).in_batch(),
            spec_run_commands(
                stack@.program,
                function_name,
                commands@,
                0,
                old(store).in_batch(),
                old(store).current(),
                old(registers)@,
                old(operations)@,
            ) == spec_run_commands(
                stack@.program,
                function_name,
                commands@,
                i as int,
                store.in_batch(),
                store.current(),
                registers@,
                operations@,
            ),
        decreases commands.len() - i,
    {
        match commands[i].finalize(stack, store, registers) {
            Ok(Some(operation)) => operations.push(operation),
            Ok(None) => {},
            Err(cause) => {
                return Err(
                    VmError::Command {
                        program_id: stack.program_id(),
                        function_name,
                        command_index: i,
                        cause,
                    },
                );
            },
        }
        i += 1;
    }
    Ok(())
}

/// Runs a finalize scope on the recorded inputs of a transition.
fn run_finalize(
    stack: &Stack,
    function_name: Identifier,
    finalize: &Finalize,
    types: Vec<ValueType>,
    inputs: &Vec<Value>,
    store: &mut FinalizeStore,
    operations: &mut Vec<FinalizeOperation>,
) -> (r: Result<(), VmError>)
    requires
        old(store).wf(),
        types@ == finalize@.register_types,
    ensures
        final(store).wf(),
        final(store)@ == old(store)@,
        final(store).in_batch() == old(store).in_batch(),
        match r {
            Ok(_) => spec_run_finalize(
                stack@.program,
                function_name,
                finalize@,
                inputs@,
                old(store).in_batch(),
                old(store).current(),
                old(operations)@,
            ) == Ok::<FinalizeEffect, VmError>(
                FinalizeEffect { state: final(store).current(), operations: final(operations)@ },
            ),
            Err(e) => spec_run_finalize(
                stack@.program,
                function_name,
                finalize@,
                inputs@,
                old(store).in_batch(),
                old(store).current(),
                old(operations)@,
            ) == Err::<FinalizeEffect, VmError>(e),
        },
{
    let mut registers = FinalizeRegisters::new(types);
    match registers.bind_inputs(&finalize.inputs, inputs) {
        Ok(_) => {},
        Err(BindError::CountMismatch { expected, found }) => {
            return Err(
                VmError::InputCountMismatch {
                    program_id: stack.program_id(),
                    function_name,
                    expected,
                    found,
                },
            );
        },
        Err(BindError::Register { index, cause }) => {
            return Err(
                VmError::InputBinding {
                    program_id: stack.program_id(),
                    function_name,
                    index,
                    cause,
                },
            );
        },
    }
    run_commands(stack, function_name, &finalize.commands, store, &mut registers, operations)
}

impl Process {
    /// Finalizes a deployment: loads the program, inserts its verifying keys,
    /// and initializes each declared mapping, in declaration order, inside one
    /// atomic batch scope.
    ///
    /// On success the store's committed state holds the new mappings, and the
    /// result is the stack, which the caller registers, with one operation for
    /// each mapping. On an error the committed state is what it was. The deployment
    /// is taken to have been validated by the caller.
    pub fn finalize_deployment(&self, store: &mut FinalizeStore, deployment: &Deployment) -> (r:
        Result<(Stack, Vec<FinalizeOperation>), VmError>)
        requires
            self.wf(),
            old(store).wf(),
        ensures
            final(store).wf(),
            final(store).in_batch() == old(store).in_batch(),
            old(store).in_batch() ==> final(store).current() == old(store).current(),
            match r {
                Ok((stack, operations)) => {
                    &&& stack.wf()
                    &&& spec_finalize_deployment(
                        self@,
                        old(store).in_batch(),
                        old(store)@,
                        deployment@,
                    ) == Ok::<DeploymentEffect, VmError>(
                        DeploymentEffect {
                            stack: stack@,
                            state: final(store)@,
                            operations: operations@,
                        },
                    )
                },
                Err(e) => {
                    &&& spec_finalize_deployment(
                        self@,
                        old(store).in_batch(),
                        old(store)@,
                        deployment@,
                    ) == Err::<DeploymentEffect, VmError>(e)
                    &&& final(store)@ == old(store)@
                },
            },
    {
        let mut stack = match Stack::new(self, &deployment.program) {
            Ok(stack) => stack,
            Err(e) => return Err(e),
        };
        match insert_keys(&mut stack, &deployment.verifying_keys) {
            Ok(_) => {},
            Err(e) => return Err(e),
        }
        let program_id = deployment.program.id;
        proof {
            store.lemma_states();
        }
        match store.begin() {
            Ok(_) => {},
            Err(e) => return Err(e),
        }
        let mut operations: Vec<FinalizeOperation> = Vec::new();
        let mut i: usize = 0;
        while i < deployment.program.mappings.len()
            invariant
                i <= deployment.program.mappings.len(),
                program_id == deployment@.program.id,
                store.wf(),
                store.in_batch(),
                !old(store).in_batch(),
                spec_deployed_stack(self@, deployment@) == Ok::<StackView, VmError>(stack@),
                store@ == old(store)@,
                spec_initialize_mappings(deployment@.program, 0, old(store)@)
                    == spec_initialize_mappings(deployment@.program, i as int, store.current()),
                operations@.len() == i,
                forall|k: int|
                    0 <= k < i ==> operations@[k] == spec_initialize_operations(
                        deployment@.program,
                    )[k],
            decreases deployment.program.mappings.len() - i,
        {
            match store.initialize_mapping(program_id, deployment.program.mappings[i].name) {
                Ok(operation) => operations.push(operation),
                Err(refusal) => {
                    store.abort();
                    return Err(
                        VmError::Mapping {
                            program_id,
                            mapping_name: deployment.program.mappings[i].name,
                            refusal,
                        },
                    );
                },
            }
            i += 1;
        }
        store.commit();
        assert(operations@ =~= spec_initialize_operations(deployment@.program));
        Ok((stack, operations))
    }
    /// Finalizes one transition inside the scope that the caller holds open,
    /// and appends the operations of its mapping writes to `operations`.
    ///
    /// The committed state of the store never changes here. After an error the
    /// working state of the open scope may hold what earlier commands of the
    /// transition wrote: the caller aborts the scope.
    pub fn finalize_transition(
        &self,
        store: &mut FinalizeStore,
        transition: &Transition,
        operations: &mut Vec<FinalizeOperation>,
    ) -> (r: Result<(), VmError>)
        requires
            self.wf(),
            old(store).wf(),
        ensures
            final(store).wf(),
            final(store)@ == old(store)@,
            final(store).in_batch() == old(store).in_batch(),
            match r {
                Ok(_) => spec_finalize_transition(
                    self@,
                    transition@,
                    old(store).in_batch(),
                    old(store).current(),
                    old(operations)@,
                ) == Ok::<FinalizeEffect, VmError>(
                    FinalizeEffect {
                        state: final(store).current(),
                        operations: final(operations)@,
                    },
                ),
                Err(e) => spec_finalize_transition(
                    self@,
                    transition@,
                    old(store).in_batch(),
                    old(store).current(),
                    old(operations)@,
                ) == Err::<FinalizeEffect, VmError>(e),
            },
    {
        let stack = match self.get_stack(transition.program_id) {
            Ok(stack) => stack,
            Err(e) => return Err(e),
        };
        let function = match stack.get_function(transition.function_name) {
            Ok(function) => function,
            Err(e) => return Err(e),
        };
        match &function.finalize {
            None => Ok(()),
            Some(finalize) => {
                let inputs = match &transition.finalize {
                    Some(inputs) => inputs,
                    None => {
                        return Err(
                            VmError::MissingFinalizeInputs {
                                program_id: transition.program_id,
                                function_name: transition.function_name,
                            },
                        );
                    },
                };
                let types = match stack.get_finalize_types(transition.function_name) {
                    Ok(types) => types,
                    Err(e) => return Err(e),
                };
                run_finalize(
                    stack,
                    transition.function_name,
                    finalize,
                    types,
                    inputs,
                    store,
                    operations,
                )
            },
        }
    }

    /// The number of transitions that an execution must hold.
    pub fn expected_transitions(&self, execution: &Execution) -> (r: Result<usize, VmError>)
        requires
            self.wf(),
        ensures
            r == spec_expected_transitions(self@, execution@),
    {
        match execution.peek() {
            None => Err(VmError::EmptyExecution),
            Some(entry) => {
                let stack = match self.get_stack(entry.program_id) {
                    Ok(stack) => stack,
                    Err(e) => return Err(e),
                };
                stack.get_number_of_calls(entry.function_name)
            },
        }
    }

    /// Finalizes an execution: applies the finalize scope of each transition,
    /// in the order of the list, inside one atomic batch scope.
    ///
    /// The execution must hold as many transitions as its entry function makes
    /// calls; otherwise it is refused before any scope is opened. On success the
    /// store's committed state holds every write, and the result lists the
    /// operations in the order in which the commands ran. On an error, whatever
    /// its kind, the committed state is what it was before the call. The
    /// execution is taken to have been proven valid by the caller.
    pub fn finalize_execution(&self, store: &mut FinalizeStore, execution: &Execution) -> (r:
        Result<Vec<FinalizeOperation>, VmError>)
        requires
            self.wf(),
            old(store).wf(),
        ensures
            final(store).wf(),
            final(store).in_batch() == old(store).in_batch(),
            old(store).in_batch() ==> final(store).current() == old(store).current(),
            spec_execution_finalized(
                self@,
                old(store).in_batch(),
                old(store)@,
                execution@,
                final(store)@,
                match r {
                    Ok(operations) => Ok(operations@),
                    Err(e) => Err(e),
                },
            ),
    {
        let expected = match self.expected_transitions(execution) {
            Ok(expected) => expected,
            Err(e) => return Err(e),
        };
        if expected != execution.len() {
            return Err(VmError::TransitionCountMismatch { expected, found: execution.len() });
        }
        proof {
            store.lemma_states();
        }
        match store.begin() {
            Ok(_) => {},
            Err(e) => return Err(e),
        }
        let mut operations: Vec<FinalizeOperation> = Vec::new();
        let mut i: usize = 0;
        while i < execution.transitions.len()
            invariant
                i <= execution.transitions.len(),
                self.wf(),
                store.wf(),
                store.in_batch(),
                !old(store).in_batch(),
                store@ == old(store)@,
                spec_expected_transitions(self@, execution@) == Ok::<usize, VmError>(expected),
                expected == execution@.transitions.len(),
                spec_finalize_transitions(
                    self@,
                    execution@.transitions,
                    0,
                    true,
                    old(store)@,
                    Seq::empty(),
                ) == spec_finalize_transitions(
                    self@,
                    execution@.transitions,
                    i as int,
                    true,
                    store.current(),
                    operations@,
                ),
            decreases execution.transitions.len() - i,
        {
            assert(execution@.transitions[i as int] == execution.transitions@[i as int]@);
            match self.finalize_transition(store, &execution.transitions[i], &mut operations) {
                Ok(_) => {},
                Err(e) => {
                    store.abort();
                    return Err(e);
                },
            }
            i += 1;
        }
        store.commit();
        Ok(operations)
    }
}

} // verus!
