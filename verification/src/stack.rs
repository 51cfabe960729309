//! The stack: one loaded program, with the number of calls that each of its
//! functions makes and the verifying key of each.

use vstd::prelude::*;
use crate::error::VmError;
use crate::process::{Process, ProcessView};
use crate::program::{copy_vec, Call, CallView, Function, FunctionView, Program, ProgramView};
use crate::types::{Identifier, ProgramId, ValueType};

verus! {

/// The most calls that one invocation may make, itself counted.
pub const MAX_CALLS: usize = 1024;

/// The key by which an execution of a function is verified.
#[derive(Clone, Copy, Debug, PartialEq, Eq, Structural)]
pub struct VerifyingKey {
    pub code: u64,
}

/// A stack as a mathematical value. `call_counts` and `verifying_keys` are
/// indexed as the program's functions are.
pub struct StackView {
    pub program: ProgramView,
    pub call_counts: Seq<usize>,
    pub verifying_keys: Seq<Option<VerifyingKey>>,
}

impl StackView {
    pub open spec fn wf(self) -> bool {
        &&& self.call_counts.len() == self.program.functions.len()
        &&& self.verifying_keys.len() == self.program.functions.len()
    }

    /// The number of calls that an invocation of the function makes in all.
    pub open spec fn number_of_calls(self, name: Identifier) -> Result<usize, VmError> {
        match self.program.function_index(name) {
            Some(i) => Ok(self.call_counts[i]),
            None => Err(
                VmError::FunctionNotFound { program_id: self.program.id, function_name: name },
            ),
        }
    }

    /// The function of that name.
    pub open spec fn function(self, name: Identifier) -> Result<FunctionView, VmError> {
        match self.program.function(name) {
            Some(f) => Ok(f),
            None => Err(
                VmError::FunctionNotFound { program_id: self.program.id, function_name: name },
            ),
        }
    }

    /// The type table of the finalize scope of the function of that name.
    pub open spec fn finalize_types(self, name: Identifier) -> Result<Seq<ValueType>, VmError> {
        match self.program.function(name) {
            Some(f) => match f.finalize {
                Some(finalize) => Ok(finalize.register_types),
                None => Err(
                    VmError::FunctionNotFound { program_id: self.program.id, function_name: name },
                ),
            },
            None => Err(
                VmError::FunctionNotFound { program_id: self.program.id, function_name: name },
            ),
        }
    }

    /// The verifying key of the function of that name, if one was inserted.
    pub open spec fn verifying_key(self, name: Identifier) -> Option<VerifyingKey> {
        match self.program.function_index(name) {
            Some(i) => self.verifying_keys[i],
            None => None,
        }
    }

    /// The stack after the key of a function was inserted.
    pub open spec fn with_verifying_key(self, name: Identifier, key: VerifyingKey) -> Result<
        StackView,
        VmError,
    > {
        match self.program.function_index(name) {
            Some(i) => Ok(
                StackView {
                    program: self.program,
                    call_counts: self.call_counts,
                    verifying_keys: self.verifying_keys.update(i, Some(key)),
                },
            ),
            None => Err(
                VmError::FunctionNotFound { program_id: self.program.id, function_name: name },
            ),
        }
    }
}

/// The number of calls that one call adds to its caller's: the callee's own
/// number. A callee in the same program must be declared before its caller, so
/// its number is among `counts`; any other is looked up in the process.
pub open spec fn spec_callee_calls(
    process: ProcessView,
    program: ProgramView,
    counts: Seq<usize>,
    call: CallView,
) -> Result<usize, VmError> {
    if call.program_id == program.id {
        match program.function_index(call.function_name) {
            Some(j) => if j < counts.len() {
                Ok(counts[j])
            } else {
                Err(
                    VmError::FunctionNotFound {
                        program_id: call.program_id,
                        function_name: call.function_name,
                    },
                )
            },
            None => Err(
                VmError::FunctionNotFound {
                    program_id: call.program_id,
                    function_name: call.function_name,
                },
            ),
        }
    } else {
        match process.stack(call.program_id) {
            Some(stack) => stack.number_of_calls(call.function_name),
            None => Err(VmError::ProgramNotFound { program_id: call.program_id }),
        }
    }
}

/// The number of calls of a function: `total`, which counts the function and the
/// callees before `from`, plus the numbers of the callees from `from` on. More
/// than [`MAX_CALLS`] is an error.
pub open spec fn spec_total_calls(
    process: ProcessView,
    program: ProgramView,
    counts: Seq<usize>,
    function: FunctionView,
    from: int,
    total: usize,
) -> Result<usize, VmError>
    decreases function.calls.len() - from,
{
    if from < 0 || from >= function.calls.len() {
        Ok(total)
    } else {
        match spec_callee_calls(process, program, counts, function.calls[from]) {
            Err(e) => Err(e),
            Ok(c) => if total + c > MAX_CALLS {
                Err(
                    VmError::CallLimitExceeded {
                        program_id: program.id,
                        function_name: function.name,
                    },
                )
            } else {
                spec_total_calls(process, program, counts, function, from + 1, (total + c) as usize)
            },
        }
    }
}

/// The numbers of calls of the functions of a program: `counts`, for the
/// functions before `from`, followed by those of the functions from `from` on.
pub open spec fn spec_call_counts(
    process: ProcessView,
    program: ProgramView,
    from: int,
    counts: Seq<usize>,
) -> Result<Seq<usize>, VmError>
    decreases program.functions.len() - from,
{
    if from < 0 || from >= program.functions.len() {
        Ok(counts)
    } else {
        match spec_total_calls(process, program, counts, program.functions[from], 0, 1) {
            Err(e) => Err(e),
            Ok(c) => spec_call_counts(process, program, from + 1, counts.push(c)),
        }
    }
}

/// The stack that a program loads to, in a process: with the number of calls
/// of each function, and no verifying key yet.
pub open spec fn spec_new_stack(process: ProcessView, program: ProgramView) -> Result<
    StackView,
    VmError,
> {
    match spec_call_counts(process, program, 0, Seq::empty()) {
        Err(e) => Err(e),
        Ok(counts) => Ok(
            StackView {
                program,
                call_counts: counts,
                verifying_keys: Seq::new(
                    program.functions.len(),
                    |i: int| None::<VerifyingKey>,
                ),
            },
        ),
    }
}

/// The numbers of calls, where they can be computed, are as many as the
/// functions.
pub proof fn lemma_call_counts_len(
    process: ProcessView,
    program: ProgramView,
    from: int,
    counts: Seq<usize>,
)
    requires
        0 <= from <= program.functions.len(),
        counts.len() == from,
        spec_call_counts(process, program, from, counts) is Ok,
    ensures
        spec_call_counts(process, program, from, counts)->Ok_0.len() == program.functions.len(),
    decreases program.functions.len() - from,
{
    if from < program.functions.len() {
        let c = spec_total_calls(process, program, counts, program.functions[from], 0, 1)->Ok_0;
        lemma_call_counts_len(process, program, from + 1, counts.push(c));
    }
}

/// One loaded program.
#[derive(Debug)]
pub struct Stack {
    program: Program,
    call_counts: Vec<usize>,
    verifying_keys: Vec<Option<VerifyingKey>>,
}

impl View for Stack {
    type V = StackView;

    closed spec fn view(&self) -> StackView {
        StackView {
            program: self.program@,
            call_counts: self.call_counts@,
            verifying_keys: self.verifying_keys@,
        }
    }
}

impl Stack {
    /// The representation invariant.
    pub open spec fn wf(&self) -> bool {
        self@.wf()
    }

    /// Loads a program: computes the number of calls of each of its functions,
    /// looking the functions of other programs up in `process`.
    pub fn new(process: &Process, program: &Program) -> (r: Result<Stack, VmError>)
        requires
            process.wf(),
        ensures
            match r {
                Ok(stack) => stack.wf() && spec_new_stack(process@, program@) == Ok::<
                    StackView,
                    VmError,
                >(stack@),
                Err(e) => spec_new_stack(process@, program@) == Err::<StackView, VmError>(e),
            },
    {
        let mut call_counts: Vec<usize> = Vec::new();
        let mut verifying_keys: Vec<Option<VerifyingKey>> = Vec::new();
        let mut i: usize = 0;
        while i < program.functions.len()
            invariant
                process.wf(),
                i <= program.functions.len(),
                call_counts@.len() == i,
                verifying_keys@.len() == i,
                forall|k: int| 0 <= k < i ==> verifying_keys@[k] is None,
                spec_call_counts(process@, program@, 0, Seq::empty()) == spec_call_counts(
                    process@,
                    program@,
                    i as int,
                    call_counts@,
                ),
            decreases program.functions.len() - i,
        {
            let count = match total_calls(process, program, &call_counts, &program.functions[i]) {
                Ok(count) => count,
                Err(e) => return Err(e),
            };
            call_counts.push(count);
            verifying_keys.push(None);
            i += 1;
        }
        let stack = Stack { program: program.copy(), call_counts, verifying_keys };
        assert(stack@.verifying_keys =~= Seq::new(
            program@.functions.len(),
            |i: int| None::<VerifyingKey>,
        ));
        Ok(stack)
    }

    pub fn program_id(&self) -> (id: ProgramId)
        ensures
            id == self@.program.id,
    {
        self.program.id
    }

    pub fn program(&self) -> (program: &Program)
        ensures
            program@ == self@.program,
    {
        &self.program
    }

    /// The function of that name.
    pub fn get_function(&self, name: Identifier) -> (r: Result<&Function, VmError>)
        ensures
            match r {
                Ok(f) => self@.function(name) == Ok::<FunctionView, VmError>(f@),
                Err(e) => self@.function(name) == Err::<FunctionView, VmError>(e),
            },
    {
        match self.program.find_function(name) {
            Some(i) => Ok(&self.program.functions[i]),
            None => Err(VmError::FunctionNotFound { program_id: self.program.id, function_name: name }),
        }
    }

    /// The number of calls that an invocation of the function makes in all,
    /// itself counted.
    pub fn get_number_of_calls(&self, name: Identifier) -> (r: Result<usize, VmError>)
        requires
            self.wf(),
        ensures
            r == self@.number_of_calls(name),
    {
        match self.program.find_function(name) {
            Some(i) => Ok(self.call_counts[i]),
            None => Err(VmError::FunctionNotFound { program_id: self.program.id, function_name: name }),
        }
    }

    /// The type table of the finalize scope of the function of that name.
    pub fn get_finalize_types(&self, name: Identifier) -> (r: Result<Vec<ValueType>, VmError>)
        ensures
            match r {
                Ok(types) => self@.finalize_types(name) == Ok::<Seq<ValueType>, VmError>(types@),
                Err(e) => self@.finalize_types(name) == Err::<Seq<ValueType>, VmError>(e),
            },
    {
        let missing = VmError::FunctionNotFound {
            program_id: self.program.id,
            function_name: name,
        };
        match self.program.find_function(name) {
            Some(i) => match &self.program.functions[i].finalize {
                Some(finalize) => Ok(copy_vec(&finalize.register_types)),
                None => Err(missing),
            },
            None => Err(missing),
        }
    }

    /// The verifying key of the function of that name, if one was inserted.
    pub fn get_verifying_key(&self, name: Identifier) -> (r: Option<VerifyingKey>)
        requires
            self.wf(),
        ensures
            r == self@.verifying_key(name),
    {
        match self.program.find_function(name) {
            Some(i) => self.verifying_keys[i],
            None => None,
        }
    }

    /// Inserts the verifying key of a function of the program. On an error the
    /// stack is unchanged.
    pub fn insert_verifying_key(&mut self, name: Identifier, key: VerifyingKey) -> (r: Result<
        (),
        VmError,
    >)
        requires
            old(self).wf(),
        ensures
            final(self).wf(),
            match r {
                Ok(_) => old(self)@.with_verifying_key(name, key) == Ok::<StackView, VmError>(
                    final(self)@,
                ),
                Err(e) => old(self)@.with_verifying_key(name, key) == Err::<StackView, VmError>(e)
                    && final(self)@ == old(self)@,
            },
    {
        match self.program.find_function(name) {
            Some(i) => {
                self.verifying_keys.set(i, Some(key));
                Ok(())
            },
            None => Err(VmError::FunctionNotFound { program_id: self.program.id, function_name: name }),
        }
    }
}

/// The number of calls that one call adds to its caller's.
fn callee_calls(process: &Process, program: &Program, counts: &Vec<usize>, call: &Call) -> (r:
    Result<usize, VmError>)
    requires
        process.wf(),
    ensures
        r == spec_callee_calls(process@, program@, counts@, call@),
{
    if call.program_id == program.id {
        let missing = VmError::FunctionNotFound {
            program_id: call.program_id,
            function_name: call.function_name,
        };
        match program.find_function(call.function_name) {
            Some(j) => if j < counts.len() {
                Ok(counts[j])
            } else {
                Err(missing)
            },
            None => Err(missing),
        }
    } else {
        match process.get_stack(call.program_id) {
            Ok(stack) => stack.get_number_of_calls(call.function_name),
            Err(e) => Err(e),
        }
    }
}

/// The number of calls of a function, given those of the functions declared
/// before it.
fn total_calls(process: &Process, program: &Program, counts: &Vec<usize>, function: &Function) -> (r:
    Result<usize, VmError>)
    requires
        process.wf(),
    ensures
        r == spec_total_calls(process@, program@, counts@, function@, 0, 1),
{
    let mut total: usize = 1;
    let mut i: usize = 0;
    while i < function.calls.len()
        invariant
            process.wf(),
            i <= function.calls.len(),
            total <= MAX_CALLS,
            spec_total_calls(process@, program@, counts@, function@, 0, 1) == spec_total_calls(
                process@,
                program@,
                counts@,
                function@,
                i as int,
                total,
            ),
        decreases function.calls.len() - i,
    {
        assert(function@.calls[i as int] == function.calls@[i as int]@);
        let c = match callee_calls(process, program, counts, &function.calls[i]) {
            Ok(c) => c,
            Err(e) => return Err(e),
        };
        if c > MAX_CALLS - total {
            return Err(
                VmError::CallLimitExceeded { program_id: program.id, function_name: function.name },
            );
        }
        total = total + c;
        i += 1;
    }
    Ok(total)
}

} // verus!
