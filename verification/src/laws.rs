//! What holds of the engine on every input.

use vstd::prelude::*;
use crate::authorize::spec_authorize;
use crate::command::{spec_declared, spec_finalize, CommandEffect};
use crate::deployment::DeploymentView;
use crate::error::{CommandError, ErrorKind, VmError};
use crate::execute::{
    spec_evaluate,
    spec_finalize_inputs,
    spec_first_response,
    spec_read_all,
    spec_resolve,
    spec_run_authorize,
    spec_sign_calls,
    spec_step_authorize,
};
use crate::execution::{ExecutionView, TransitionView};
use crate::finalize::{
    spec_deployed_stack,
    spec_execution_finalized,
    spec_expected_transitions,
    spec_finalize_deployment,
    spec_finalize_execution,
    spec_finalize_transition,
    spec_initialize_mappings,
    FinalizeEffect,
};
use crate::process::ProcessView;
use crate::program::{CallView, Command, Operand, ProgramView};
use crate::registers::RegistersView;
use crate::request::{
    lemma_signed_request_verifies,
    spec_sign,
    spec_validate_inputs,
    PrivateKey,
    RequestView,
};
use crate::stack::{StackView, MAX_CALLS};
use crate::store::{FinalizeOperation, StoreState};
use crate::types::{Identifier, MappingId, ProgramId, Value, ValueType};

verus! {

/// The mappings of a program can all be initialized on a state: no two bear
/// one name, and the state holds none of them.
pub open spec fn spec_mappings_are_new(program: ProgramView, state: StoreState) -> bool {
    &&& forall|i: int, j: int|
        0 <= i < j < program.mappings.len() ==> program.mappings[i].name
            != program.mappings[j].name
    &&& forall|i: int|
        0 <= i < program.mappings.len() ==> !state.is_initialized(
            #[trigger] program.mapping_id(i),
        )
}

/// Initializing the mappings from `from` on succeeds exactly when they are
/// new, and then the state holds them in addition, each of them empty.
proof fn lemma_initialize_from(program: ProgramView, from: int, state: StoreState)
    requires
        0 <= from <= program.mappings.len(),
        state.wf(),
    ensures
        spec_initialize_mappings(program, from, state) is Ok <==> {
            &&& forall|i: int, j: int|
                from <= i < j < program.mappings.len() ==> program.mappings[i].name
                    != program.mappings[j].name
            &&& forall|i: int|
                from <= i < program.mappings.len() ==> !state.is_initialized(
                    #[trigger] program.mapping_id(i),
                )
        },
        spec_initialize_mappings(program, from, state) matches Ok(next) ==> {
            &&& next.wf()
            &&& next.entries == state.entries
            &&& forall|m: MappingId| state.is_initialized(m) ==> next.is_initialized(m)
            &&& forall|i: int|
                from <= i < program.mappings.len() ==> next.is_initialized(
                    #[trigger] program.mapping_id(i),
                )
            &&& forall|m: MappingId|
                next.is_initialized(m) ==> state.is_initialized(m) || exists|i: int|
                    from <= i < program.mappings.len() && #[trigger] program.mapping_id(i) == m
        },
    decreases program.mappings.len() - from,
{
    if from < program.mappings.len() {
        let id = program.mapping_id(from);
        if !state.is_initialized(id) {
            let next = state.initialize(id)->Ok_0;
            assert(next.wf());
            lemma_initialize_from(program, from + 1, next);
            let rest = spec_initialize_mappings(program, from + 1, next);
            if rest is Ok {
                assert forall|i: int, j: int|
                    from <= i < j < program.mappings.len() implies program.mappings[i].name
                    != program.mappings[j].name by {
                    if i == from {
                        assert(!next.is_initialized(program.mapping_id(j)));
                        assert(next.is_initialized(id));
                    }
                }
                assert forall|i: int| from <= i < program.mappings.len() implies !state.is_initialized(
                    #[trigger] program.mapping_id(i),
                ) by {
                    if i > from {
                        assert(!next.is_initialized(program.mapping_id(i)));
                    }
                }
                let last = rest->Ok_0;
                assert forall|m: MappingId| last.is_initialized(m) implies state.is_initialized(m)
                    || exists|i: int|
                    from <= i < program.mappings.len() && #[trigger] program.mapping_id(i)
                        == m by {
                    if !state.is_initialized(m) {
                        if m == id {
                            assert(program.mapping_id(from) == m);
                        } else {
                            assert(!next.is_initialized(m));
                            let i = choose|i: int|
                                from + 1 <= i < program.mappings.len() && #[trigger] program.mapping_id(
                                    i,
                                ) == m;
                            assert(from <= i < program.mappings.len() && program.mapping_id(i) == m);
                        }
                    }
                }
            } else {
                if forall|i: int, j: int|
                    from <= i < j < program.mappings.len() ==> program.mappings[i].name
                        != program.mappings[j].name {
                    let i = choose|i: int|
                        from + 1 <= i < program.mappings.len() && next.is_initialized(
                            #[trigger] program.mapping_id(i),
                        );
                    assert(program.mapping_id(i) != id);
                    assert(state.is_initialized(program.mapping_id(i)));
                }
            }
        } else {
            assert(state.is_initialized(program.mapping_id(from)));
        }
    }
}

/// Mapping initialization is complete.
///
/// A deployment that is finalized yields exactly one operation for each
/// mapping that its program declares, in declaration order, each of them the
/// initialization of that mapping; afterwards every declared mapping is
/// initialized and empty, and nothing else in the store has changed. The
/// mappings of a deployment that is finalized were new.
pub proof fn lemma_mapping_initialization(
    process: ProcessView,
    state: StoreState,
    deployment: DeploymentView,
)
    requires
        state.wf(),
        spec_finalize_deployment(process, false, state, deployment) is Ok,
    ensures
        ({
            let effect = spec_finalize_deployment(process, false, state, deployment)->Ok_0;
            let program = deployment.program;
            &&& effect.operations.len() == program.mappings.len()
            &&& forall|i: int|
                0 <= i < program.mappings.len() ==> #[trigger] effect.operations[i]
                    == (FinalizeOperation::InitializeMapping { mapping: program.mapping_id(i) })
            &&& forall|i: int|
                0 <= i < program.mappings.len() ==> effect.state.is_empty_mapping(
                    #[trigger] program.mapping_id(i),
                )
            &&& effect.state.entries == state.entries
            &&& forall|m: MappingId| state.is_initialized(m) ==> effect.state.is_initialized(m)
            &&& spec_mappings_are_new(program, state)
        }),
{
    let program = deployment.program;
    lemma_initialize_from(program, 0, state);
    let effect = spec_finalize_deployment(process, false, state, deployment)->Ok_0;
    assert forall|i: int| 0 <= i < program.mappings.len() implies effect.state.is_empty_mapping(
        #[trigger] program.mapping_id(i),
    ) by {
        let id = program.mapping_id(i);
        assert(!state.is_initialized(id));
        assert forall|key: Value| !effect.state.entries.contains_key((id, key)) by {
            if state.entries.contains_key((id, key)) {
                assert(state.mappings.contains(id));
            }
        }
    }
}

/// A deployment whose program loads, on a store without an open scope, is
/// finalized exactly when its mappings are new.
pub proof fn lemma_deployment_succeeds(
    process: ProcessView,
    state: StoreState,
    deployment: DeploymentView,
)
    requires
        state.wf(),
        spec_deployed_stack(process, deployment) is Ok,
    ensures
        spec_finalize_deployment(process, false, state, deployment) is Ok <==> spec_mappings_are_new(
            deployment.program,
            state,
        ),
{
    lemma_initialize_from(deployment.program, 0, state);
}

/// The guard on the number of transitions.
///
/// An execution that does not hold as many transitions as its entry function
/// makes calls is refused with an error of the kind `Validation`, whatever the
/// store holds. (That the store is then unchanged is what `finalize_execution`
/// ensures of every error.)
pub proof fn lemma_transition_count_guard(
    process: ProcessView,
    in_batch: bool,
    state: StoreState,
    execution: ExecutionView,
)
    requires
        spec_expected_transitions(process, execution) matches Ok(expected) && expected
            != execution.transitions.len(),
    ensures
        spec_finalize_execution(process, in_batch, state, execution) == Err::<
            FinalizeEffect,
            VmError,
        >(
            VmError::TransitionCountMismatch {
                expected: spec_expected_transitions(process, execution)->Ok_0,
                found: execution.transitions.len() as usize,
            },
        ),
        spec_finalize_execution(process, in_batch, state, execution)->Err_0.spec_kind()
            == ErrorKind::Validation,
{
}

/// An execution that cannot be finalized for want of transitions, of a
/// program or of a function is refused with an error of the kind
/// `Validation`.
pub proof fn lemma_unexpected_execution(
    process: ProcessView,
    in_batch: bool,
    state: StoreState,
    execution: ExecutionView,
)
    requires
        spec_expected_transitions(process, execution) is Err,
    ensures
        spec_finalize_execution(process, in_batch, state, execution) is Err,
        spec_finalize_execution(process, in_batch, state, execution)->Err_0.spec_kind()
            == ErrorKind::Validation,
{
}

/// Atomicity.
///
/// An execution that is not finalized, whatever made it fail (a command of
/// any of its transitions, a missing input, a wrong number of transitions),
/// leaves the committed state of the store as it was: every mapping is
/// initialized or not as before, and every key holds what it held.
pub proof fn lemma_atomicity(
    process: ProcessView,
    in_batch: bool,
    state: StoreState,
    execution: ExecutionView,
    state_after: StoreState,
    r: Result<Seq<FinalizeOperation>, VmError>,
    mapping: MappingId,
    key: Value,
)
    requires
        spec_execution_finalized(process, in_batch, state, execution, state_after, r),
        r is Err,
    ensures
        state_after == state,
        state_after.is_initialized(mapping) == state.is_initialized(mapping),
        state_after.get(mapping, key) == state.get(mapping, key),
{
}

/// Finalization is a function of its inputs: two finalizations of one
/// execution by one process on one committed state have the same result and
/// leave the same state.
pub proof fn lemma_finalization_is_determined(
    process: ProcessView,
    in_batch: bool,
    state: StoreState,
    execution: ExecutionView,
    first_after: StoreState,
    first: Result<Seq<FinalizeOperation>, VmError>,
    second_after: StoreState,
    second: Result<Seq<FinalizeOperation>, VmError>,
)
    requires
        spec_execution_finalized(process, in_batch, state, execution, first_after, first),
        spec_execution_finalized(process, in_batch, state, execution, second_after, second),
    ensures
        first == second,
        first_after == second_after,
{
}

/// Replay determinism.
///
/// What the finalization of a transition does depends on the program, on the
/// function, on the recorded finalize inputs and on the state of the store
/// before it, and on nothing else: two transitions that agree in these yield
/// the same operations in the same order and leave the same state, whatever
/// inputs and outputs they record.
pub proof fn lemma_replay_determinism(
    process: ProcessView,
    first: TransitionView,
    second: TransitionView,
    in_batch: bool,
    state: StoreState,
    operations: Seq<FinalizeOperation>,
)
    requires
        first.program_id == second.program_id,
        first.function_name == second.function_name,
        first.finalize == second.finalize,
    ensures
        spec_finalize_transition(process, first, in_batch, state, operations)
            == spec_finalize_transition(process, second, in_batch, state, operations),
{
}

/// A command yields an operation exactly when it is a mapping write. A
/// command that is none leaves the store as it is and keeps the type table; a
/// mapping write leaves the registers as they are.
pub proof fn lemma_command_effect(
    command: Command,
    program: ProgramView,
    in_batch: bool,
    state: StoreState,
    registers: RegistersView,
)
    requires
        spec_finalize(command, program, in_batch, state, registers) is Ok,
    ensures
        ({
            let effect = spec_finalize(command, program, in_batch, state, registers)->Ok_0;
            &&& effect.operation is Some <==> command.spec_is_write()
            &&& effect.operation is None ==> effect.state == state
            &&& effect.operation is Some ==> effect.registers == registers && in_batch
            &&& effect.registers.types == registers.types
        }),
{
}

/// Registers are assigned once.
///
/// A command that succeeds leaves every register that held a value with that
/// value, writes at most one register, which held none, and keeps every value
/// in the type of its register.
pub proof fn lemma_single_assignment(
    command: Command,
    program: ProgramView,
    in_batch: bool,
    state: StoreState,
    registers: RegistersView,
)
    requires
        registers.wf(),
        spec_finalize(command, program, in_batch, state, registers) is Ok,
    ensures
        ({
            let after = spec_finalize(command, program, in_batch, state, registers)->Ok_0.registers;
            &&& after.wf()
            &&& after.values.len() == registers.values.len()
            &&& forall|i: int|
                0 <= i < registers.values.len() && registers.values[i] is Some
                    ==> #[trigger] after.values[i] == registers.values[i]
            &&& forall|i: int, j: int|
                0 <= i < j < registers.values.len() && registers.values[i] is None
                    && registers.values[j] is None ==> #[trigger] after.values[i] is None
                    || #[trigger] after.values[j] is None
        }),
{
}

/// Every entry of the store lies in an initialized mapping, whatever is done
/// to the store.
pub proof fn lemma_store_stays_well_formed(
    state: StoreState,
    mapping: MappingId,
    key: Value,
    value: Value,
)
    requires
        state.wf(),
    ensures
        state.initialize(mapping) matches Ok(next) ==> next.wf(),
        state.insert(mapping, key, value) matches Ok(next) ==> next.wf(),
        state.update(mapping, key, value) matches Ok(next) ==> next.wf(),
        state.remove(mapping, key) matches Ok(next) ==> next.wf(),
        state.remove_mapping(mapping) matches Ok(next) ==> next.wf(),
{
}

/// A mapping that was removed is as if it had never been: it is not
/// initialized, it can be initialized again, and it is empty then, whatever it
/// held before. Every other mapping holds what it held.
pub proof fn lemma_removed_mapping_is_gone(
    state: StoreState,
    mapping: MappingId,
    other: MappingId,
    key: Value,
)
    requires
        state.wf(),
        state.remove_mapping(mapping) is Ok,
        other != mapping,
    ensures
        ({
            let next = state.remove_mapping(mapping)->Ok_0;
            &&& !next.is_initialized(mapping)
            &&& next.get(mapping, key) is None
            &&& next.initialize(mapping) matches Ok(last) && last.is_empty_mapping(mapping)
            &&& next.is_initialized(other) == state.is_initialized(other)
            &&& next.get(other, key) == state.get(other, key)
        }),
{
}

/// A command keeps every entry of the store inside an initialized mapping.
pub proof fn lemma_command_keeps_store_well_formed(
    command: Command,
    program: ProgramView,
    in_batch: bool,
    state: StoreState,
    registers: RegistersView,
)
    requires
        state.wf(),
        spec_finalize(command, program, in_batch, state, registers) is Ok,
    ensures
        spec_finalize(command, program, in_batch, state, registers)->Ok_0.state.wf(),
{
}

/// The store is typed for a program: under every declared mapping of the
/// program, each key and each value is of the type that the program declares
/// for it.
pub open spec fn spec_store_is_typed(state: StoreState, program: ProgramView) -> bool {
    forall|name: Identifier, key: Value| #[trigger]
        state.entries.contains_key((MappingId { program: program.id, name }, key)) ==> (
        program.mapping(name) matches Some(declared) ==> key.spec_has_type(declared.key_type)
            && state.entries[(MappingId { program: program.id, name }, key)].spec_has_type(
            declared.value_type,
        ))
}

/// Commands keep the store typed.
///
/// A command of a program that succeeds on a store that is typed for the
/// program leaves a store that is typed for the program.
pub proof fn lemma_command_keeps_store_typed(
    command: Command,
    program: ProgramView,
    in_batch: bool,
    state: StoreState,
    registers: RegistersView,
)
    requires
        spec_store_is_typed(state, program),
        spec_finalize(command, program, in_batch, state, registers) is Ok,
    ensures
        spec_store_is_typed(
            spec_finalize(command, program, in_batch, state, registers)->Ok_0.state,
            program,
        ),
{
}

/// A command stays in its program: it reads and writes mappings of its own
/// program only, so the mappings of every other program are as they were.
pub proof fn lemma_command_stays_in_its_program(
    command: Command,
    program: ProgramView,
    in_batch: bool,
    state: StoreState,
    registers: RegistersView,
    mapping: MappingId,
    key: Value,
)
    requires
        spec_finalize(command, program, in_batch, state, registers) is Ok,
        mapping.program != program.id,
    ensures
        ({
            let after = spec_finalize(command, program, in_batch, state, registers)->Ok_0.state;
            &&& after.is_initialized(mapping) == state.is_initialized(mapping)
            &&& after.get(mapping, key) == state.get(mapping, key)
        }),
{
}

/// Authorization determinism.
///
/// The authorization of a call, and the random words that are left after it,
/// are determined by the stack, the process, the key, the function, the inputs
/// and the random words: two authorizations of one call with equal random
/// words are equal, request by request.
pub proof fn lemma_authorize_determinism(
    entry: StackView,
    process: ProcessView,
    key: PrivateKey,
    function_name: Identifier,
    inputs: Seq<Value>,
    first_rng: Seq<u64>,
    second_rng: Seq<u64>,
)
    requires
        first_rng == second_rng,
    ensures
        spec_authorize(entry, process, key, function_name, inputs, first_rng) == spec_authorize(
            entry,
            process,
            key,
            function_name,
            inputs,
            second_rng,
        ),
{
}

/// Signing the calls of a function keeps the requests that the authorization
/// holds and appends the new ones.
proof fn lemma_sign_calls_extends(
    entry: StackView,
    process: ProcessView,
    key: PrivateKey,
    program_id: ProgramId,
    function_name: Identifier,
    calls: Seq<CallView>,
    inputs: Seq<Value>,
    from: int,
    authorization: Seq<RequestView>,
    children: Seq<RequestView>,
    rng: Seq<u64>,
)
    requires
        0 <= from <= calls.len(),
    ensures
        ({
            let signed = spec_sign_calls(
                entry,
                process,
                key,
                program_id,
                function_name,
                calls,
                inputs,
                from,
                authorization,
                children,
                rng,
            );
            &&& authorization.is_prefix_of(signed.authorization)
            &&& signed.error is None ==> signed.authorization.len() == authorization.len()
                + calls.len() - from
            &&& signed.error is None ==> signed.children.len() == children.len() + calls.len()
                - from
        }),
    decreases calls.len() - from,
{
    if from < calls.len() {
        let signed = spec_sign_calls(
            entry,
            process,
            key,
            program_id,
            function_name,
            calls,
            inputs,
            from,
            authorization,
            children,
            rng,
        );
        let call = calls[from];
        let arguments = spec_read_all(
            program_id,
            function_name,
            inputs,
            call.arguments,
            0,
            Seq::empty(),
        );
        if arguments is Ok {
            let stack = spec_resolve(entry, process, call.program_id);
            if stack is Ok {
                let callee = stack->Ok_0.function(call.function_name);
                if callee is Ok {
                    let one = spec_sign(
                        key,
                        call.program_id,
                        call.function_name,
                        arguments->Ok_0,
                        callee->Ok_0.input_types,
                        rng,
                    );
                    if one.result is Ok {
                        let request = one.result->Ok_0;
                        lemma_sign_calls_extends(
                            entry,
                            process,
                            key,
                            program_id,
                            function_name,
                            calls,
                            inputs,
                            from + 1,
                            authorization.push(request),
                            children.push(request),
                            one.rng,
                        );
                    }
                }
            }
        }
    }
}

/// A run in the mode `Authorize` keeps the requests that the authorization
/// holds at its start.
proof fn lemma_run_authorize_extends(
    entry: StackView,
    process: ProcessView,
    key: PrivateKey,
    fuel: nat,
    pending: Seq<RequestView>,
    authorization: Seq<RequestView>,
    rng: Seq<u64>,
    response: Option<Seq<Value>>,
)
    ensures
        spec_run_authorize(
            entry,
            process,
            key,
            fuel,
            pending,
            authorization,
            rng,
            response,
        ).result matches Ok((_, accumulated)) ==> authorization.is_prefix_of(accumulated),
    decreases fuel,
{
    if pending.len() > 0 && fuel > 0 {
        reveal(spec_step_authorize);
        let request = pending.last();
        let step = spec_step_authorize(entry, process, key, request, authorization, rng);
        if step.result is Ok {
            let evaluated = spec_evaluate(entry, process, request)->Ok_0;
            lemma_sign_calls_extends(
                entry,
                process,
                key,
                request.program_id,
                request.function_name,
                evaluated.function.calls,
                request.inputs,
                0,
                authorization,
                Seq::empty(),
                rng,
            );
            let (outputs, children, accumulated) = step.result->Ok_0;
            lemma_run_authorize_extends(
                entry,
                process,
                key,
                (fuel - 1) as nat,
                pending.drop_last() + children,
                accumulated,
                step.rng,
                spec_first_response(response, outputs),
            );
        }
    }
}

/// An authorization begins with the request of the call itself.
///
/// The first request of the authorization of a call is the request that the
/// key signs for the function on the inputs, with the first random word; and
/// the authorization of a function that makes no call holds this request and
/// no other.
pub proof fn lemma_authorization_begins_with_request(
    entry: StackView,
    process: ProcessView,
    key: PrivateKey,
    function_name: Identifier,
    inputs: Seq<Value>,
    rng: Seq<u64>,
)
    requires
        spec_authorize(entry, process, key, function_name, inputs, rng).result is Ok,
    ensures
        ({
            let authorization = spec_authorize(
                entry,
                process,
                key,
                function_name,
                inputs,
                rng,
            ).result->Ok_0;
            let function = entry.function(function_name)->Ok_0;
            let signed = spec_sign(
                key,
                entry.program.id,
                function_name,
                inputs,
                function.input_types,
                rng,
            );
            &&& entry.function(function_name) is Ok
            &&& signed.result is Ok
            &&& authorization.len() >= 1
            &&& authorization[0] == signed.result->Ok_0
            &&& authorization[0].program_id == entry.program.id
            &&& authorization[0].function_name == function_name
            &&& authorization[0].inputs == inputs
            &&& function.calls.len() == 0 ==> authorization == seq![signed.result->Ok_0]
        }),
{
    let function = entry.function(function_name)->Ok_0;
    let signed = spec_sign(key, entry.program.id, function_name, inputs, function.input_types, rng);
    let request = signed.result->Ok_0;
    lemma_run_authorize_extends(
        entry,
        process,
        key,
        MAX_CALLS as nat,
        seq![request],
        seq![request],
        signed.rng,
        None,
    );
    let run = spec_run_authorize(
        entry,
        process,
        key,
        MAX_CALLS as nat,
        seq![request],
        seq![request],
        signed.rng,
        None,
    );
    let authorization = run.result->Ok_0.1;
    assert(seq![request].is_prefix_of(authorization));
    assert(authorization[0] == seq![request][0]);
    if function.calls.len() == 0 {
        reveal(spec_step_authorize);
        assert(seq![request].last() == request);
        let evaluated = spec_evaluate(entry, process, request);
        assert(evaluated is Ok);
        assert(spec_resolve(entry, process, request.program_id) == Ok::<
            StackView,
            VmError,
        >(entry));
        assert(evaluated->Ok_0.function == function);
        let step = spec_step_authorize(entry, process, key, request, seq![request], signed.rng);
        assert(step.result is Ok);
        let (outputs, children, accumulated) = step.result->Ok_0;
        assert(accumulated == seq![request]);
        assert(children.len() == 0);
        assert(seq![request].drop_last() + children =~= Seq::<RequestView>::empty());
        reveal_with_fuel(spec_run_authorize, 3);
    }
}

/// When the authorization of a function that makes no call is owed.
///
/// Where the stack has the function, the inputs are as many as its input
/// types and each of its type, a random word is left, and the outputs and the
/// finalize inputs of the function can be read from the inputs, the
/// authorization succeeds: it holds the signed request of the call and no
/// other, and one random word is drawn.
pub proof fn lemma_authorize_without_calls(
    entry: StackView,
    process: ProcessView,
    key: PrivateKey,
    function_name: Identifier,
    inputs: Seq<Value>,
    rng: Seq<u64>,
)
    requires
        entry.function(function_name) is Ok,
        entry.function(function_name)->Ok_0.calls.len() == 0,
        spec_validate_inputs(
            entry.program.id,
            function_name,
            inputs,
            entry.function(function_name)->Ok_0.input_types,
        ) is Ok,
        rng.len() > 0,
        spec_read_all(
            entry.program.id,
            function_name,
            inputs,
            entry.function(function_name)->Ok_0.outputs,
            0,
            Seq::empty(),
        ) is Ok,
        spec_finalize_inputs(
            entry.program.id,
            function_name,
            inputs,
            entry.function(function_name)->Ok_0.finalize,
        ) is Ok,
    ensures
        ({
            let authorized = spec_authorize(entry, process, key, function_name, inputs, rng);
            let signed = spec_sign(
                key,
                entry.program.id,
                function_name,
                inputs,
                entry.function(function_name)->Ok_0.input_types,
                rng,
            );
            &&& signed.result is Ok
            &&& authorized.result == Ok::<Seq<RequestView>, VmError>(seq![signed.result->Ok_0])
            &&& authorized.rng == rng.drop_first()
        }),
{
    let function = entry.function(function_name)->Ok_0;
    let signed = spec_sign(key, entry.program.id, function_name, inputs, function.input_types, rng);
    let request = signed.result->Ok_0;
    lemma_signed_request_verifies(
        key,
        entry.program.id,
        function_name,
        inputs,
        function.input_types,
        rng,
    );
    reveal(spec_step_authorize);
    assert(seq![request].last() == request);
    assert(spec_resolve(entry, process, request.program_id) == Ok::<StackView, VmError>(entry));
    let evaluated = spec_evaluate(entry, process, request);
    assert(evaluated is Ok);
    let step = spec_step_authorize(entry, process, key, request, seq![request], signed.rng);
    assert(step.result is Ok);
    let (outputs, children, accumulated) = step.result->Ok_0;
    assert(accumulated == seq![request]);
    assert(children.len() == 0);
    assert(seq![request].drop_last() + children =~= Seq::<RequestView>::empty());
    reveal_with_fuel(spec_run_authorize, 3);
}

/// When an increment is owed, and what it does.
///
/// Inside a batch scope, on an initialized mapping that the program declares
/// with integer values, an increment whose key is of the declared type and
/// whose amount is an integer succeeds unless the sum leaves the integers of 64
/// bits: it sets the value under the key to the value that the key held, or
/// zero, plus the amount, and yields the update of the key to that sum as its
/// one operation.
pub proof fn lemma_increment_adds(
    program: ProgramView,
    mapping: Identifier,
    key: Operand,
    amount: Operand,
    state: StoreState,
    registers: RegistersView,
    held: u64,
    added: u64,
)
    requires
        spec_declared(program, mapping) matches Ok(declared) && declared.value_type
            == ValueType::U64 && (registers.load_operand(key) matches Ok(k) && k.spec_has_type(
            declared.key_type,
        )),
        registers.load_operand(amount) == Ok::<Value, CommandError>(Value::U64(added)),
        state.is_initialized(MappingId { program: program.id, name: mapping }),
        ({
            let held_value = state.get(
                MappingId { program: program.id, name: mapping },
                registers.load_operand(key)->Ok_0,
            );
            (held_value is None && held == 0) || held_value == Some(Value::U64(held))
        }),
        held + added <= u64::MAX,
    ensures
        ({
            let id = MappingId { program: program.id, name: mapping };
            let k = registers.load_operand(key)->Ok_0;
            let sum = Value::U64((held + added) as u64);
            spec_finalize(Command::Increment { mapping, key, amount }, program, true, state, registers)
                == Ok::<CommandEffect, CommandError>(
                CommandEffect {
                    state: StoreState {
                        mappings: state.mappings,
                        entries: state.entries.insert((id, k), sum),
                    },
                    registers,
                    operation: Some(FinalizeOperation::UpdateKeyValue { mapping: id, key: k, value: sum }),
                },
            )
        }),
{
}

} // verus!
