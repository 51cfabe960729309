//! The dispatch of calls: how one invocation, in the mode of its call stack,
//! runs through the chain of calls that it makes.
//!
//! The calls that wait are kept on a work list, the pending requests of the
//! call stack, and no call is made by recursion. Each run processes at most
//! [`MAX_CALLS`] requests.

use vstd::prelude::*;
use crate::call_stack::{Authorization, CallStack, CallStackView, Response};
use crate::error::{CommandError, VmError};
use crate::execution::{Execution, ExecutionView, Transition, TransitionView};
use crate::process::{Process, ProcessView};
use crate::program::{copy_vec, CallView, FinalizeView, Function, FunctionView, Operand};
use crate::request::{
    spec_sign,
    spec_validate_inputs,
    spec_verifies,
    validate_inputs,
    PrivateKey,
    Request,
    RequestView,
};
use crate::rng::Randomness;
use crate::stack::{Stack, StackView, MAX_CALLS};
use crate::types::{Identifier, ProgramId, Value};

verus! {

/// The stack of a program, seen from the stack on which the invocation
/// started: that stack itself for its own program, and the stack that the
/// process holds for any other.
pub open spec fn spec_resolve(entry: StackView, process: ProcessView, id: ProgramId) -> Result<
    StackView,
    VmError,
> {
    if entry.program.id == id {
        Ok(entry)
    } else {
        match process.stack(id) {
            Some(stack) => Ok(stack),
            None => Err(VmError::ProgramNotFound { program_id: id }),
        }
    }
}

/// An operand of a function's body, read from the inputs of the call:
/// register `i` is input `i`. A literal must be canonical.
pub open spec fn spec_read(inputs: Seq<Value>, operand: Operand) -> Result<Value, CommandError> {
    match operand {
        Operand::Literal(v) => if v.spec_is_canonical() {
            Ok(v)
        } else {
            Err(CommandError::TypeMismatch)
        },
        Operand::Register(i) => if i < inputs.len() {
            Ok(inputs[i as int])
        } else {
            Err(CommandError::UndefinedRegister)
        },
    }
}

/// `values`, followed by what the operands from `from` on read, in order.
pub open spec fn spec_read_all(
    program_id: ProgramId,
    function_name: Identifier,
    inputs: Seq<Value>,
    operands: Seq<Operand>,
    from: int,
    values: Seq<Value>,
) -> Result<Seq<Value>, VmError>
    decreases operands.len() - from,
{
    if from < 0 || from >= operands.len() {
        Ok(values)
    } else {
        match spec_read(inputs, operands[from]) {
            Err(cause) => Err(VmError::Operand { program_id, function_name, cause }),
            Ok(v) => spec_read_all(
                program_id,
                function_name,
                inputs,
                operands,
                from + 1,
                values.push(v),
            ),
        }
    }
}

/// What a call hands to the finalize scope of its function, if it has one.
pub open spec fn spec_finalize_inputs(
    program_id: ProgramId,
    function_name: Identifier,
    inputs: Seq<Value>,
    finalize: Option<FinalizeView>,
) -> Result<Option<Seq<Value>>, VmError> {
    match finalize {
        None => Ok(None),
        Some(scope) => match spec_read_all(
            program_id,
            function_name,
            inputs,
            scope.arguments,
            0,
            Seq::empty(),
        ) {
            Err(e) => Err(e),
            Ok(values) => Ok(Some(values)),
        },
    }
}

/// A call that was evaluated: its function, and the transition that it
/// yields.
pub struct Evaluated {
    pub function: FunctionView,
    pub transition: TransitionView,
}

/// The evaluation of the call that a request asks for: the function is looked
/// up, the inputs are held against its input types and the signature against
/// the signer, and the outputs and the finalize inputs are read.
pub open spec fn spec_evaluate(entry: StackView, process: ProcessView, request: RequestView) -> Result<
    Evaluated,
    VmError,
> {
    let program_id = request.program_id;
    let function_name = request.function_name;
    match spec_resolve(entry, process, program_id) {
        Err(e) => Err(e),
        Ok(stack) => match stack.function(function_name) {
            Err(e) => Err(e),
            Ok(function) => match spec_validate_inputs(
                program_id,
                function_name,
                request.inputs,
                function.input_types,
            ) {
                Err(e) => Err(e),
                Ok(_) => if !spec_verifies(request, function.input_types) {
                    Err(VmError::InvalidRequest { program_id, function_name })
                } else {
                    match spec_read_all(
                    program_id,
                    function_name,
                    request.inputs,
                    function.outputs,
                    0,
                    Seq::empty(),
                ) {
                    Err(e) => Err(e),
                    Ok(outputs) => match spec_finalize_inputs(
                        program_id,
                        function_name,
                        request.inputs,
                        function.finalize,
                    ) {
                        Err(e) => Err(e),
                        Ok(finalize) => Ok(
                            Evaluated {
                                function,
                                transition: TransitionView {
                                    program_id,
                                    function_name,
                                    inputs: request.inputs,
                                    outputs,
                                    finalize,
                                },
                            },
                        ),
                    },
                }
                },
            },
        },
    }
}

/// The stack of a program, seen from the stack on which the invocation started.
pub fn resolve<'a>(entry: &'a Stack, process: &'a Process, id: ProgramId) -> (r: Result<
    &'a Stack,
    VmError,
>)
    ensures
        match r {
            Ok(stack) => spec_resolve(entry@, process@, id) == Ok::<StackView, VmError>(stack@),
            Err(e) => spec_resolve(entry@, process@, id) == Err::<StackView, VmError>(e),
        },
{
    if entry.program_id() == id {
        Ok(entry)
    } else {
        process.get_stack(id)
    }
}

/// Reads an operand of a function's body from the inputs of the call.
pub fn read(inputs: &Vec<Value>, operand: &Operand) -> (r: Result<Value, CommandError>)
    ensures
        r == spec_read(inputs@, *operand),
{
    match operand {
        Operand::Literal(v) => if v.is_canonical() {
            Ok(*v)
        } else {
            Err(CommandError::TypeMismatch)
        },
        Operand::Register(i) => if *i < inputs.len() as u64 {
            Ok(inputs[*i as usize])
        } else {
            Err(CommandError::UndefinedRegister)
        },
    }
}

/// Reads operands of a function's body, in order.
pub fn read_all(
    program_id: ProgramId,
    function_name: Identifier,
    inputs: &Vec<Value>,
    operands: &Vec<Operand>,
) -> (r: Result<Vec<Value>, VmError>)
    ensures
        match r {
            Ok(values) => spec_read_all(
                program_id,
                function_name,
                inputs@,
                operands@,
                0,
                Seq::empty(),
            ) == Ok::<Seq<Value>, VmError>(values@),
            Err(e) => spec_read_all(
                program_id,
                function_name,
                inputs@,
                operands@,
                0,
                Seq::empty(),
            ) == Err::<Seq<Value>, VmError>(e),
        },
{
    let mut values: Vec<Value> = Vec::new();
    let mut i: usize = 0;
    while i < operands.len()
        invariant
            i <= operands.len(),
            spec_read_all(program_id, function_name, inputs@, operands@, 0, Seq::empty())
                == spec_read_all(program_id, function_name, inputs@, operands@, i as int, values@),
        decreases operands.len() - i,
    {
        match read(inputs, &operands[i]) {
            Ok(v) => values.push(v),
            Err(cause) => return Err(VmError::Operand { program_id, function_name, cause }),
        }
        i += 1;
    }
    Ok(values)
}

/// Evaluates the call that a request asks for.
pub fn evaluate<'a>(entry: &'a Stack, process: &'a Process, request: &Request) -> (r: Result<
    (&'a Function, Transition),
    VmError,
>)
    ensures
        match r {
            Ok((function, transition)) => spec_evaluate(entry@, process@, request@) == Ok::<
                Evaluated,
                VmError,
            >(Evaluated { function: function@, transition: transition@ }),
            Err(e) => spec_evaluate(entry@, process@, request@) == Err::<Evaluated, VmError>(e),
        },
{
    let program_id = request.program_id;
    let function_name = request.function_name;
    let stack = match resolve(entry, process, program_id) {
        Ok(stack) => stack,
        Err(e) => return Err(e),
    };
    let function = match stack.get_function(function_name) {
        Ok(function) => function,
        Err(e) => return Err(e),
    };
    match validate_inputs(program_id, function_name, &request.inputs, &function.input_types) {
        Ok(_) => {},
        Err(e) => return Err(e),
    }
    if !request.verify(&function.input_types) {
        return Err(VmError::InvalidRequest { program_id, function_name });
    }
    let outputs = match read_all(program_id, function_name, &request.inputs, &function.outputs) {
        Ok(outputs) => outputs,
        Err(e) => return Err(e),
    };
    let finalize = match &function.finalize {
        None => None,
        Some(scope) => match read_all(
            program_id,
            function_name,
            &request.inputs,
            &scope.arguments,
        ) {
            Ok(values) => Some(values),
            Err(e) => return Err(e),
        },
    };
    Ok(
        (
            function,
            Transition {
                program_id,
                function_name,
                inputs: copy_vec(&request.inputs),
                outputs,
                finalize,
            },
        ),
    )
}

/// The calls of a function's body, signed: the authorization with the new
/// requests appended, the new requests themselves, the random words that are
/// left, and the error of the first call that could not be signed.
pub struct SignedCalls {
    pub authorization: Seq<RequestView>,
    pub children: Seq<RequestView>,
    pub rng: Seq<u64>,
    pub error: Option<VmError>,
}

/// Signs the calls from `from` on, in order, on the inputs of the caller.
pub open spec fn spec_sign_calls(
    entry: StackView,
    process: ProcessView,
    key: PrivateKey,
    program_id: ProgramId,
    function_name: Identifier,
    calls: Seq<CallView>,
    inputs: Seq<Value>,
    from: int,
    authorization: Seq<RequestView>,
    children: Seq<RequestView>,
    rng: Seq<u64>,
) -> SignedCalls
    decreases calls.len() - from,
{
    if from < 0 || from >= calls.len() {
        SignedCalls { authorization, children, rng, error: None }
    } else {
        let call = calls[from];
        match spec_read_all(program_id, function_name, inputs, call.arguments, 0, Seq::empty()) {
            Err(e) => SignedCalls { authorization, children, rng, error: Some(e) },
            Ok(arguments) => match spec_resolve(entry, process, call.program_id) {
                Err(e) => SignedCalls { authorization, children, rng, error: Some(e) },
                Ok(stack) => match stack.function(call.function_name) {
                    Err(e) => SignedCalls { authorization, children, rng, error: Some(e) },
                    Ok(callee) => {
                        let signed = spec_sign(
                            key,
                            call.program_id,
                            call.function_name,
                            arguments,
                            callee.input_types,
                            rng,
                        );
                        match signed.result {
                            Err(e) => SignedCalls {
                                authorization,
                                children,
                                rng: signed.rng,
                                error: Some(e),
                            },
                            Ok(request) => spec_sign_calls(
                                entry,
                                process,
                                key,
                                program_id,
                                function_name,
                                calls,
                                inputs,
                                from + 1,
                                authorization.push(request),
                                children.push(request),
                                signed.rng,
                            ),
                        }
                    },
                },
            },
        }
    }
}

/// One request processed in the mode `Authorize`: the outputs of its call, the
/// requests of the calls of its function, the authorization with those
/// appended, and the random words that are left.
pub struct AuthorizeStep {
    pub result: Result<(Seq<Value>, Seq<RequestView>, Seq<RequestView>), VmError>,
    pub rng: Seq<u64>,
}

/// Processes one request in the mode `Authorize`: its call is evaluated, and
/// the calls of its function are signed, in order, and appended to the
/// authorization.
#[verifier::opaque]
pub open spec fn spec_step_authorize(
    entry: StackView,
    process: ProcessView,
    key: PrivateKey,
    request: RequestView,
    authorization: Seq<RequestView>,
    rng: Seq<u64>,
) -> AuthorizeStep {
    match spec_evaluate(entry, process, request) {
        Err(e) => AuthorizeStep { result: Err(e), rng },
        Ok(evaluated) => {
            let signed = spec_sign_calls(
                entry,
                process,
                key,
                request.program_id,
                request.function_name,
                evaluated.function.calls,
                request.inputs,
                0,
                authorization,
                Seq::empty(),
                rng,
            );
            match signed.error {
                Some(e) => AuthorizeStep { result: Err(e), rng: signed.rng },
                None => AuthorizeStep {
                    result: Ok((evaluated.transition.outputs, signed.children, signed.authorization)),
                    rng: signed.rng,
                },
            }
        },
    }
}

/// What a run in the mode `Authorize` yields, and the random words that are
/// left after it.
pub struct AuthorizeRun {
    pub result: Result<(Seq<Value>, Seq<RequestView>), VmError>,
    pub rng: Seq<u64>,
}

/// The outputs of the call that was processed first.
pub open spec fn spec_first_response(response: Option<Seq<Value>>, outputs: Seq<Value>) -> Option<
    Seq<Value>,
> {
    match response {
        Some(first) => Some(first),
        None => Some(outputs),
    }
}

/// A run in the mode `Authorize`, with `fuel` requests still to be processed
/// at most.
///
/// The request that was pushed last is processed first, and the requests of
/// the calls of its function are pushed, in order. The run ends when no
/// request is pending, with the outputs of the call that was processed first
/// and the authorization.
pub open spec fn spec_run_authorize(
    entry: StackView,
    process: ProcessView,
    key: PrivateKey,
    fuel: nat,
    pending: Seq<RequestView>,
    authorization: Seq<RequestView>,
    rng: Seq<u64>,
    response: Option<Seq<Value>>,
) -> AuthorizeRun
    decreases fuel,
{
    if pending.len() == 0 {
        match response {
            Some(outputs) => AuthorizeRun { result: Ok((outputs, authorization)), rng },
            None => AuthorizeRun { result: Err(VmError::NoPendingRequest), rng },
        }
    } else if fuel == 0 {
        AuthorizeRun {
            result: Err(
                VmError::CallLimitExceeded {
                    program_id: pending.last().program_id,
                    function_name: pending.last().function_name,
                },
            ),
            rng,
        }
    } else {
        let step = spec_step_authorize(entry, process, key, pending.last(), authorization, rng);
        match step.result {
            Err(e) => AuthorizeRun { result: Err(e), rng: step.rng },
            Ok((outputs, children, accumulated)) => spec_run_authorize(
                entry,
                process,
                key,
                (fuel - 1) as nat,
                pending.drop_last() + children,
                accumulated,
                step.rng,
                spec_first_response(response, outputs),
            ),
        }
    }
}

/// Signs the calls of a function's body, in order, and appends their requests
/// to the authorization. The result holds the new requests.
fn sign_calls(
    entry: &Stack,
    process: &Process,
    key: &PrivateKey,
    request: &Request,
    function: &Function,
    authorization: &mut Authorization,
    rng: &mut Randomness,
) -> (r: Result<Vec<Request>, VmError>)
    ensures
        ({
            let signed = spec_sign_calls(
                entry@,
                process@,
                *key,
                request@.program_id,
                request@.function_name,
                function@.calls,
                request@.inputs,
                0,
                old(authorization)@,
                Seq::empty(),
                old(rng)@,
            );
            &&& final(rng)@ == signed.rng
            &&& match r {
                Ok(children) => {
                    &&& signed.error is None
                    &&& children@.map_values(|c: Request| c@) == signed.children
                    &&& final(authorization)@ == signed.authorization
                },
                Err(e) => signed.error == Some(e),
            }
        }),
{
    let mut children: Vec<Request> = Vec::new();
    let mut i: usize = 0;
    assert(children@.map_values(|c: Request| c@) =~= Seq::<RequestView>::empty());
    while i < function.calls.len()
        invariant
            i <= function.calls.len(),
            spec_sign_calls(
                entry@,
                process@,
                *key,
                request@.program_id,
                request@.function_name,
                function@.calls,
                request@.inputs,
                0,
                old(authorization)@,
                Seq::empty(),
                old(rng)@,
            ) == spec_sign_calls(
                entry@,
                process@,
                *key,
                request@.program_id,
                request@.function_name,
                function@.calls,
                request@.inputs,
                i as int,
                authorization@,
                children@.map_values(|c: Request| c@),
                rng@,
            ),
        decreases function.calls.len() - i,
    {
        let call = &function.calls[i];
        assert(function@.calls[i as int] == call@);
        let arguments = match read_all(
            request.program_id,
            request.function_name,
            &request.inputs,
            &call.arguments,
        ) {
            Ok(arguments) => arguments,
            Err(e) => return Err(e),
        };
        let stack = match resolve(entry, process, call.program_id) {
            Ok(stack) => stack,
            Err(e) => return Err(e),
        };
        let callee = match stack.get_function(call.function_name) {
            Ok(callee) => callee,
            Err(e) => return Err(e),
        };
        let child = match Request::sign(
            key,
            call.program_id,
            call.function_name,
            arguments,
            &callee.input_types,
            rng,
        ) {
            Ok(child) => child,
            Err(e) => return Err(e),
        };
        let ghost before = children@.map_values(|c: Request| c@);
        authorization.push(child.copy());
        children.push(child);
        assert(children@.map_values(|c: Request| c@) =~= before.push(child@));
        i += 1;
    }
    Ok(children)
}

/// Processes one request in the mode `Authorize`. The result holds the outputs
/// of its call and the requests of the calls of its function.
fn step_authorize(
    entry: &Stack,
    process: &Process,
    key: &PrivateKey,
    request: &Request,
    authorization: &mut Authorization,
    rng: &mut Randomness,
) -> (r: Result<(Vec<Value>, Vec<Request>), VmError>)
    ensures
        ({
            let step = spec_step_authorize(
                entry@,
                process@,
                *key,
                request@,
                old(authorization)@,
                old(rng)@,
            );
            &&& final(rng)@ == step.rng
            &&& match r {
                Ok((outputs, children)) => step.result == Ok::<
                    (Seq<Value>, Seq<RequestView>, Seq<RequestView>),
                    VmError,
                >((outputs@, children@.map_values(|c: Request| c@), final(authorization)@)),
                Err(e) => step.result == Err::<
                    (Seq<Value>, Seq<RequestView>, Seq<RequestView>),
                    VmError,
                >(e),
            }
        }),
{
    reveal(spec_step_authorize);
    let (function, transition) = match evaluate(entry, process, request) {
        Ok(evaluated) => evaluated,
        Err(e) => return Err(e),
    };
    let children = match sign_calls(entry, process, key, request, function, authorization, rng) {
        Ok(children) => children,
        Err(e) => return Err(e),
    };
    Ok((transition.outputs, children))
}

/// Runs a call stack in the mode `Authorize` until no request is pending.
fn run_authorize(
    entry: &Stack,
    process: &Process,
    key: &PrivateKey,
    requests: Vec<Request>,
    authorization: Authorization,
    rng: &mut Randomness,
) -> (r: Result<(Response, Authorization), VmError>)
    ensures
        ({
            let run = spec_run_authorize(
                entry@,
                process@,
                *key,
                MAX_CALLS as nat,
                requests@.map_values(|q: Request| q@),
                authorization@,
                old(rng)@,
                None,
            );
            &&& final(rng)@ == run.rng
            &&& match r {
                Ok((response, accumulated)) => run.result == Ok::<
                    (Seq<Value>, Seq<RequestView>),
                    VmError,
                >((response@, accumulated@)),
                Err(e) => run.result == Err::<(Seq<Value>, Seq<RequestView>), VmError>(e),
            }
        }),
{
    let mut pending = requests;
    let mut accumulated = authorization;
    let mut response: Option<Vec<Value>> = None;
    let mut fuel: usize = MAX_CALLS;
    let ghost run = spec_run_authorize(
        entry@,
        process@,
        *key,
        MAX_CALLS as nat,
        pending@.map_values(|q: Request| q@),
        accumulated@,
        rng@,
        None,
    );
    while pending.len() > 0
        invariant
            run == spec_run_authorize(
                entry@,
                process@,
                *key,
                MAX_CALLS as nat,
                requests@.map_values(|q: Request| q@),
                authorization@,
                old(rng)@,
                None,
            ),
            run == spec_run_authorize(
                entry@,
                process@,
                *key,
                fuel as nat,
                pending@.map_values(|q: Request| q@),
                accumulated@,
                rng@,
                spec_response(response),
            ),
        ensures
            pending.len() == 0,
            run == spec_run_authorize(
                entry@,
                process@,
                *key,
                fuel as nat,
                pending@.map_values(|q: Request| q@),
                accumulated@,
                rng@,
                spec_response(response),
            ),
        decreases fuel,
    {
        let ghost before = pending@.map_values(|q: Request| q@);
        if fuel == 0 {
            let last = &pending[pending.len() - 1];
            assert(before.last() == last@);
            return Err(
                VmError::CallLimitExceeded {
                    program_id: last.program_id,
                    function_name: last.function_name,
                },
            );
        }
        let request = match pending.pop() {
            Some(request) => request,
            None => return Err(VmError::NoPendingRequest),
        };
        assert(before.last() == request@);
        assert(pending@.map_values(|q: Request| q@) =~= before.drop_last());
        let (outputs, mut children) = match step_authorize(
            entry,
            process,
            key,
            &request,
            &mut accumulated,
            rng,
        ) {
            Ok(step) => step,
            Err(e) => return Err(e),
        };
        let ghost signed = children@.map_values(|q: Request| q@);
        pending.append(&mut children);
        assert(pending@.map_values(|q: Request| q@) =~= before.drop_last() + signed);
        response = first_response(response, outputs);
        fuel = fuel - 1;
    }
    match response {
        Some(outputs) => Ok((Response { outputs }, accumulated)),
        None => Err(VmError::NoPendingRequest),
    }
}

/// The outputs that a run has so far, as a sequence.
pub open spec fn spec_response(response: Option<Vec<Value>>) -> Option<Seq<Value>> {
    match response {
        Some(outputs) => Some(outputs@),
        None => None,
    }
}

/// Keeps the outputs of the call that was processed first.
fn first_response(response: Option<Vec<Value>>, outputs: Vec<Value>) -> (r: Option<Vec<Value>>)
    ensures
        spec_response(r) == spec_first_response(spec_response(response), outputs@),
{
    match response {
        Some(first) => Some(first),
        None => Some(outputs),
    }
}

/// The calls of a function's body, matched with the requests of an
/// authorization: the number of requests that are taken, the requests of the
/// calls, and the error of the first call that has no request.
pub struct TakenCalls {
    pub taken: usize,
    pub children: Seq<RequestView>,
    pub error: Option<VmError>,
}

/// Takes the requests of the calls from `from` on from the authorization, in
/// order: the next request that is not taken yet must be for the function that
/// the call names, on the arguments that the call reads.
pub open spec fn spec_take_calls(
    program_id: ProgramId,
    function_name: Identifier,
    calls: Seq<CallView>,
    inputs: Seq<Value>,
    from: int,
    authorization: Seq<RequestView>,
    taken: usize,
    children: Seq<RequestView>,
) -> TakenCalls
    decreases calls.len() - from,
{
    if from < 0 || from >= calls.len() {
        TakenCalls { taken, children, error: None }
    } else {
        let call = calls[from];
        let mismatch = VmError::AuthorizationMismatch {
            program_id: call.program_id,
            function_name: call.function_name,
        };
        match spec_read_all(program_id, function_name, inputs, call.arguments, 0, Seq::empty()) {
            Err(e) => TakenCalls { taken, children, error: Some(e) },
            Ok(arguments) => if taken >= authorization.len() {
                TakenCalls { taken, children, error: Some(mismatch) }
            } else {
                let request = authorization[taken as int];
                if request.program_id != call.program_id || request.function_name
                    != call.function_name || request.inputs != arguments {
                    TakenCalls { taken, children, error: Some(mismatch) }
                } else {
                    spec_take_calls(
                        program_id,
                        function_name,
                        calls,
                        inputs,
                        from + 1,
                        authorization,
                        (taken + 1) as usize,
                        children.push(request),
                    )
                }
            },
        }
    }
}

/// One request processed in the modes `Execute` and `Verify`: the transition
/// of its call, the requests of the calls of its function, and the number of
/// requests of the authorization that are taken after it.
#[verifier::opaque]
pub open spec fn spec_step_take(
    entry: StackView,
    process: ProcessView,
    request: RequestView,
    authorization: Seq<RequestView>,
    taken: usize,
) -> Result<(TransitionView, Seq<RequestView>, usize), VmError> {
    match spec_evaluate(entry, process, request) {
        Err(e) => Err(e),
        Ok(evaluated) => {
            let took = spec_take_calls(
                request.program_id,
                request.function_name,
                evaluated.function.calls,
                request.inputs,
                0,
                authorization,
                taken,
                Seq::empty(),
            );
            match took.error {
                Some(e) => Err(e),
                None => Ok((evaluated.transition, took.children, took.taken)),
            }
        },
    }
}

/// A run in the mode `Execute`, with `fuel` requests still to be processed at
/// most. Each call that is processed puts its transition before those of the
/// calls that were processed before it: the transition of the call that
/// started the chain stands last.
pub open spec fn spec_run_execute(
    entry: StackView,
    process: ProcessView,
    fuel: nat,
    pending: Seq<RequestView>,
    authorization: Seq<RequestView>,
    taken: usize,
    transitions: Seq<TransitionView>,
    response: Option<Seq<Value>>,
) -> Result<(Seq<Value>, usize, Seq<TransitionView>), VmError>
    decreases fuel,
{
    if pending.len() == 0 {
        match response {
            Some(outputs) => Ok((outputs, taken, transitions)),
            None => Err(VmError::NoPendingRequest),
        }
    } else if fuel == 0 {
        Err(
            VmError::CallLimitExceeded {
                program_id: pending.last().program_id,
                function_name: pending.last().function_name,
            },
        )
    } else {
        match spec_step_take(entry, process, pending.last(), authorization, taken) {
            Err(e) => Err(e),
            Ok((transition, children, next)) => spec_run_execute(
                entry,
                process,
                (fuel - 1) as nat,
                pending.drop_last() + children,
                authorization,
                next,
                transitions.insert(0, transition),
                spec_first_response(response, transition.outputs),
            ),
        }
    }
}

/// A run in the mode `Verify`, with `fuel` requests still to be processed at
/// most. The call that is processed as the `n`-th must yield the transition
/// that the execution records as the `n`-th from its end.
pub open spec fn spec_run_verify(
    entry: StackView,
    process: ProcessView,
    fuel: nat,
    pending: Seq<RequestView>,
    authorization: Seq<RequestView>,
    taken: usize,
    transitions: Seq<TransitionView>,
    verified: usize,
    response: Option<Seq<Value>>,
) -> Result<(Seq<Value>, usize, usize), VmError>
    decreases fuel,
{
    if pending.len() == 0 {
        match response {
            Some(outputs) => Ok((outputs, taken, verified)),
            None => Err(VmError::NoPendingRequest),
        }
    } else if fuel == 0 {
        Err(
            VmError::CallLimitExceeded {
                program_id: pending.last().program_id,
                function_name: pending.last().function_name,
            },
        )
    } else {
        match spec_step_take(entry, process, pending.last(), authorization, taken) {
            Err(e) => Err(e),
            Ok((transition, children, next)) => if verified >= transitions.len()
                || transitions[transitions.len() - 1 - verified] != transition {
                Err(
                    VmError::TransitionMismatch {
                        program_id: transition.program_id,
                        function_name: transition.function_name,
                    },
                )
            } else {
                spec_run_verify(
                    entry,
                    process,
                    (fuel - 1) as nat,
                    pending.drop_last() + children,
                    authorization,
                    next,
                    transitions,
                    (verified + 1) as usize,
                    spec_first_response(response, transition.outputs),
                )
            },
        }
    }
}

/// What a run of a call stack yields: the outputs of the call that started it
/// and the call stack after it, or an error; and the random words that are
/// left.
pub struct Dispatch {
    pub result: Result<(Seq<Value>, CallStackView), VmError>,
    pub rng: Seq<u64>,
}

/// The meaning of a run of a call stack, by its mode. Only the mode
/// `Authorize` draws random words. After a run no request is pending.
pub open spec fn spec_execute_function(
    entry: StackView,
    process: ProcessView,
    call_stack: CallStackView,
    rng: Seq<u64>,
) -> Dispatch {
    match call_stack {
        CallStackView::Authorize { requests, private_key, authorization } => {
            let run = spec_run_authorize(
                entry,
                process,
                private_key,
                MAX_CALLS as nat,
                requests,
                authorization,
                rng,
                None,
            );
            Dispatch {
                result: match run.result {
                    Ok((outputs, accumulated)) => Ok(
                        (
                            outputs,
                            CallStackView::Authorize {
                                requests: Seq::empty(),
                                private_key,
                                authorization: accumulated,
                            },
                        ),
                    ),
                    Err(e) => Err(e),
                },
                rng: run.rng,
            }
        },
        CallStackView::Execute { requests, authorization, taken, execution } => Dispatch {
            result: match spec_run_execute(
                entry,
                process,
                MAX_CALLS as nat,
                requests,
                authorization,
                taken,
                execution.transitions,
                None,
            ) {
                Ok((outputs, next, transitions)) => Ok(
                    (
                        outputs,
                        CallStackView::Execute {
                            requests: Seq::empty(),
                            authorization,
                            taken: next,
                            execution: ExecutionView { transitions },
                        },
                    ),
                ),
                Err(e) => Err(e),
            },
            rng,
        },
        CallStackView::Verify { requests, authorization, taken, execution, verified } => Dispatch {
            result: match spec_run_verify(
                entry,
                process,
                MAX_CALLS as nat,
                requests,
                authorization,
                taken,
                execution.transitions,
                verified,
                None,
            ) {
                Ok((outputs, next, held)) => Ok(
                    (
                        outputs,
                        CallStackView::Verify {
                            requests: Seq::empty(),
                            authorization,
                            taken: next,
                            execution,
                            verified: held,
                        },
                    ),
                ),
                Err(e) => Err(e),
            },
            rng,
        },
    }
}

/// Whether two vectors hold the same values.
pub fn values_equal(a: &Vec<Value>, b: &Vec<Value>) -> (r: bool)
    ensures
        r == (a@ == b@),
{
    if a.len() != b.len() {
        return false;
    }
    let mut i: usize = 0;
    while i < a.len()
        invariant
            i <= a.len(),
            a.len() == b.len(),
            forall|k: int| 0 <= k < i ==> a@[k] == b@[k],
        decreases a.len() - i,
    {
        if a[i] != b[i] {
            return false;
        }
        i += 1;
    }
    assert(a@ =~= b@);
    true
}

/// Whether two transitions record the same call.
pub fn transitions_equal(a: &Transition, b: &Transition) -> (r: bool)
    ensures
        r == (a@ == b@),
{
    let finalize = match (&a.finalize, &b.finalize) {
        (Some(x), Some(y)) => values_equal(x, y),
        (None, None) => true,
        _ => false,
    };
    a.program_id == b.program_id && a.function_name == b.function_name && values_equal(
        &a.inputs,
        &b.inputs,
    ) && values_equal(&a.outputs, &b.outputs) && finalize
}

/// Takes the requests of the calls of a function's body from the
/// authorization, in order. The result holds them and the number of requests
/// that are taken after them.
fn take_calls(request: &Request, function: &Function, authorization: &Authorization, taken: usize) -> (r:
    Result<(Vec<Request>, usize), VmError>)
    ensures
        ({
            let took = spec_take_calls(
                request@.program_id,
                request@.function_name,
                function@.calls,
                request@.inputs,
                0,
                authorization@,
                taken,
                Seq::empty(),
            );
            match r {
                Ok((children, next)) => {
                    &&& took.error is None
                    &&& children@.map_values(|c: Request| c@) == took.children
                    &&& next == took.taken
                },
                Err(e) => took.error == Some(e),
            }
        }),
{
    let mut children: Vec<Request> = Vec::new();
    let mut next: usize = taken;
    let mut i: usize = 0;
    assert(children@.map_values(|c: Request| c@) =~= Seq::<RequestView>::empty());
    while i < function.calls.len()
        invariant
            i <= function.calls.len(),
            spec_take_calls(
                request@.program_id,
                request@.function_name,
                function@.calls,
                request@.inputs,
                0,
                authorization@,
                taken,
                Seq::empty(),
            ) == spec_take_calls(
                request@.program_id,
                request@.function_name,
                function@.calls,
                request@.inputs,
                i as int,
                authorization@,
                next,
                children@.map_values(|c: Request| c@),
            ),
        decreases function.calls.len() - i,
    {
        let call = &function.calls[i];
        assert(function@.calls[i as int] == call@);
        let arguments = match read_all(
            request.program_id,
            request.function_name,
            &request.inputs,
            &call.arguments,
        ) {
            Ok(arguments) => arguments,
            Err(e) => return Err(e),
        };
        let mismatch = VmError::AuthorizationMismatch {
            program_id: call.program_id,
            function_name: call.function_name,
        };
        if next >= authorization.len() {
            return Err(mismatch);
        }
        let authorized = &authorization.requests[next];
        assert(authorization@[next as int] == authorized@);
        if authorized.program_id != call.program_id || authorized.function_name
            != call.function_name || !values_equal(&authorized.inputs, &arguments) {
            return Err(mismatch);
        }
        let ghost before = children@.map_values(|c: Request| c@);
        children.push(authorized.copy());
        assert(children@.map_values(|c: Request| c@) =~= before.push(authorized@));
        next = next + 1;
        i += 1;
    }
    Ok((children, next))
}

/// Processes one request in the modes `Execute` and `Verify`.
fn step_take(
    entry: &Stack,
    process: &Process,
    request: &Request,
    authorization: &Authorization,
    taken: usize,
) -> (r: Result<(Transition, Vec<Request>, usize), VmError>)
    ensures
        match r {
            Ok((transition, children, next)) => spec_step_take(
                entry@,
                process@,
                request@,
                authorization@,
                taken,
            ) == Ok::<(TransitionView, Seq<RequestView>, usize), VmError>(
                (transition@, children@.map_values(|c: Request| c@), next),
            ),
            Err(e) => spec_step_take(entry@, process@, request@, authorization@, taken) == Err::<
                (TransitionView, Seq<RequestView>, usize),
                VmError,
            >(e),
        },
{
    reveal(spec_step_take);
    let (function, transition) = match evaluate(entry, process, request) {
        Ok(evaluated) => evaluated,
        Err(e) => return Err(e),
    };
    let (children, next) = match take_calls(request, function, authorization, taken) {
        Ok(took) => took,
        Err(e) => return Err(e),
    };
    Ok((transition, children, next))
}

/// Runs a call stack in the mode `Execute` until no request is pending.
fn run_execute(
    entry: &Stack,
    process: &Process,
    requests: Vec<Request>,
    authorization: &Authorization,
    taken: usize,
    execution: Execution,
) -> (r: Result<(Response, usize, Execution), VmError>)
    ensures
        match r {
            Ok((response, next, extended)) => spec_run_execute(
                entry@,
                process@,
                MAX_CALLS as nat,
                requests@.map_values(|q: Request| q@),
                authorization@,
                taken,
                execution@.transitions,
                None,
            ) == Ok::<(Seq<Value>, usize, Seq<TransitionView>), VmError>(
                (response@, next, extended@.transitions),
            ),
            Err(e) => spec_run_execute(
                entry@,
                process@,
                MAX_CALLS as nat,
                requests@.map_values(|q: Request| q@),
                authorization@,
                taken,
                execution@.transitions,
                None,
            ) == Err::<(Seq<Value>, usize, Seq<TransitionView>), VmError>(e),
        },
{
    let mut pending = requests;
    let mut transitions = execution.transitions;
    let mut next: usize = taken;
    let mut response: Option<Vec<Value>> = None;
    let mut fuel: usize = MAX_CALLS;
    let ghost run = spec_run_execute(
        entry@,
        process@,
        MAX_CALLS as nat,
        pending@.map_values(|q: Request| q@),
        authorization@,
        taken,
        transitions@.map_values(|t: Transition| t@),
        None,
    );
    while pending.len() > 0
        invariant
            run == spec_run_execute(
                entry@,
                process@,
                MAX_CALLS as nat,
                requests@.map_values(|q: Request| q@),
                authorization@,
                taken,
                execution@.transitions,
                None,
            ),
            run == spec_run_execute(
                entry@,
                process@,
                fuel as nat,
                pending@.map_values(|q: Request| q@),
                authorization@,
                next,
                transitions@.map_values(|t: Transition| t@),
                spec_response(response),
            ),
        decreases fuel,
    {
        let ghost before = pending@.map_values(|q: Request| q@);
        let ghost recorded = transitions@.map_values(|t: Transition| t@);
        if fuel == 0 {
            let last = &pending[pending.len() - 1];
            assert(before.last() == last@);
            return Err(
                VmError::CallLimitExceeded {
                    program_id: last.program_id,
                    function_name: last.function_name,
                },
            );
        }
        let request = match pending.pop() {
            Some(request) => request,
            None => return Err(VmError::NoPendingRequest),
        };
        assert(before.last() == request@);
        assert(pending@.map_values(|q: Request| q@) =~= before.drop_last());
        let (transition, mut children, after) = match step_take(
            entry,
            process,
            &request,
            authorization,
            next,
        ) {
            Ok(step) => step,
            Err(e) => return Err(e),
        };
        let ghost taken_requests = children@.map_values(|q: Request| q@);
        pending.append(&mut children);
        assert(pending@.map_values(|q: Request| q@) =~= before.drop_last() + taken_requests);
        response = first_response(response, copy_vec(&transition.outputs));
        let ghost yielded = transition@;
        transitions.insert(0, transition);
        assert(transitions@.map_values(|t: Transition| t@) =~= recorded.insert(0, yielded));
        next = after;
        fuel = fuel - 1;
    }
    match response {
        Some(outputs) => Ok((Response { outputs }, next, Execution { transitions })),
        None => Err(VmError::NoPendingRequest),
    }
}

/// Runs a call stack in the mode `Verify` until no request is pending.
fn run_verify(
    entry: &Stack,
    process: &Process,
    requests: Vec<Request>,
    authorization: &Authorization,
    taken: usize,
    execution: &Execution,
    verified: usize,
) -> (r: Result<(Response, usize, usize), VmError>)
    ensures
        r matches Ok((response, next, held)) ==> spec_run_verify(
            entry@,
            process@,
            MAX_CALLS as nat,
            requests@.map_values(|q: Request| q@),
            authorization@,
            taken,
            execution@.transitions,
            verified,
            None,
        ) == Ok::<(Seq<Value>, usize, usize), VmError>((response@, next, held)),
        r matches Err(e) ==> spec_run_verify(
            entry@,
            process@,
            MAX_CALLS as nat,
            requests@.map_values(|q: Request| q@),
            authorization@,
            taken,
            execution@.transitions,
            verified,
            None,
        ) == Err::<(Seq<Value>, usize, usize), VmError>(e),
{
    let mut pending = requests;
    let mut next: usize = taken;
    let mut held: usize = verified;
    let mut response: Option<Vec<Value>> = None;
    let mut fuel: usize = MAX_CALLS;
    let ghost run = spec_run_verify(
        entry@,
        process@,
        MAX_CALLS as nat,
        pending@.map_values(|q: Request| q@),
        authorization@,
        taken,
        execution@.transitions,
        verified,
        None,
    );
    while pending.len() > 0
        invariant
            run == spec_run_verify(
                entry@,
                process@,
                MAX_CALLS as nat,
                requests@.map_values(|q: Request| q@),
                authorization@,
                taken,
                execution@.transitions,
                verified,
                None,
            ),
            run == spec_run_verify(
                entry@,
                process@,
                fuel as nat,
                pending@.map_values(|q: Request| q@),
                authorization@,
                next,
                execution@.transitions,
                held,
                spec_response(response),
            ),
        decreases fuel,
    {
        let ghost before = pending@.map_values(|q: Request| q@);
        if fuel == 0 {
            let last = &pending[pending.len() - 1];
            assert(before.last() == last@);
            return Err(
                VmError::CallLimitExceeded {
                    program_id: last.program_id,
                    function_name: last.function_name,
                },
            );
        }
        let request = match pending.pop() {
            Some(request) => request,
            None => return Err(VmError::NoPendingRequest),
        };
        assert(before.last() == request@);
        assert(pending@.map_values(|q: Request| q@) =~= before.drop_last());
        let (transition, mut children, after) = match step_take(
            entry,
            process,
            &request,
            authorization,
            next,
        ) {
            Ok(step) => step,
            Err(e) => return Err(e),
        };
        let mismatch = VmError::TransitionMismatch {
            program_id: transition.program_id,
            function_name: transition.function_name,
        };
        if held >= execution.transitions.len() {
            return Err(mismatch);
        }
        let recorded = &execution.transitions[execution.transitions.len() - 1 - held];
        assert(execution@.transitions[execution@.transitions.len() - 1 - held] == recorded@);
        if !transitions_equal(recorded, &transition) {
            return Err(mismatch);
        }
        let ghost taken_requests = children@.map_values(|q: Request| q@);
        pending.append(&mut children);
        assert(pending@.map_values(|q: Request| q@) =~= before.drop_last() + taken_requests);
        response = first_response(response, transition.outputs);
        next = after;
        held = held + 1;
        fuel = fuel - 1;
    }
    match response {
        Some(outputs) => Ok((Response { outputs }, next, held)),
        None => Err(VmError::NoPendingRequest),
    }
}

impl Stack {
    /// Runs a call stack on this stack, in the mode of the call stack, until
    /// no request is pending: the request that was pushed last is processed
    /// first, and the calls of its function are pushed as requests in their
    /// turn, whatever program they belong to.
    ///
    /// The result holds the outputs of the call that was processed first and
    /// the call stack with what the run accumulated.
    pub fn execute_function(&self, process: &Process, call_stack: CallStack, rng: &mut Randomness) -> (r:
        Result<(Response, CallStack), VmError>)
        ensures
            final(rng)@ == spec_execute_function(self@, process@, call_stack@, old(rng)@).rng,
            match r {
                Ok((response, after)) => spec_execute_function(
                    self@,
                    process@,
                    call_stack@,
                    old(rng)@,
                ).result == Ok::<(Seq<Value>, CallStackView), VmError>((response@, after@)),
                Err(e) => spec_execute_function(self@, process@, call_stack@, old(rng)@).result
                    == Err::<(Seq<Value>, CallStackView), VmError>(e),
            },
    {
        match call_stack {
            CallStack::Authorize { requests, private_key, authorization } => {
                match run_authorize(self, process, &private_key, requests, authorization, rng) {
                    Ok((response, accumulated)) => {
                        let after = CallStack::Authorize {
                            requests: Vec::new(),
                            private_key,
                            authorization: accumulated,
                        };
                        assert(after@->Authorize_requests =~= Seq::<RequestView>::empty());
                        Ok((response, after))
                    },
                    Err(e) => Err(e),
                }
            },
            CallStack::Execute { requests, authorization, taken, execution } => {
                match run_execute(self, process, requests, &authorization, taken, execution) {
                    Ok((response, next, extended)) => {
                        let after = CallStack::Execute {
                            requests: Vec::new(),
                            authorization,
                            taken: next,
                            execution: extended,
                        };
                        assert(after@->Execute_requests =~= Seq::<RequestView>::empty());
                        Ok((response, after))
                    },
                    Err(e) => Err(e),
                }
            },
            CallStack::Verify { requests, authorization, taken, execution, verified } => {
                match run_verify(
                    self,
                    process,
                    requests,
                    &authorization,
                    taken,
                    &execution,
                    verified,
                ) {
                    Ok((response, next, held)) => {
                        let after = CallStack::Verify {
                            requests: Vec::new(),
                            authorization,
                            taken: next,
                            execution,
                            verified: held,
                        };
                        assert(after@->Verify_requests =~= Seq::<RequestView>::empty());
                        Ok((response, after))
                    },
                    Err(e) => Err(e),
                }
            },
        }
    }
}

} // verus!
