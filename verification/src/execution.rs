//! Executions: the recorded transitions of a proven chain of calls.

use vstd::prelude::*;
use crate::types::{Identifier, ProgramId, Value};

verus! {

/// The recorded effect of one call of a function.
#[derive(Debug, PartialEq, Eq)]
pub struct Transition {
    pub program_id: ProgramId,
    pub function_name: Identifier,
    pub inputs: Vec<Value>,
    pub outputs: Vec<Value>,
    /// The inputs of the function's finalize scope, if the call recorded any.
    pub finalize: Option<Vec<Value>>,
}

/// The transitions of one chain of calls, in the order in which the calls
/// completed and in which they are finalized. The call that started the chain
/// completes last: the entry transition is the last one.
#[derive(Debug, PartialEq, Eq)]
pub struct Execution {
    pub transitions: Vec<Transition>,
}

pub struct TransitionView {
    pub program_id: ProgramId,
    pub function_name: Identifier,
    pub inputs: Seq<Value>,
    pub outputs: Seq<Value>,
    pub finalize: Option<Seq<Value>>,
}

pub struct ExecutionView {
    pub transitions: Seq<TransitionView>,
}

impl View for Transition {
    type V = TransitionView;

    open spec fn view(&self) -> TransitionView {
        TransitionView {
            program_id: self.program_id,
            function_name: self.function_name,
            inputs: self.inputs@,
            outputs: self.outputs@,
            finalize: match self.finalize {
                Some(inputs) => Some(inputs@),
                None => None,
            },
        }
    }
}

impl View for Execution {
    type V = ExecutionView;

    open spec fn view(&self) -> ExecutionView {
        ExecutionView { transitions: self.transitions@.map_values(|t: Transition| t@) }
    }
}

impl Execution {
    pub fn len(&self) -> (n: usize)
        ensures
            n == self@.transitions.len(),
    {
        self.transitions.len()
    }

    pub fn is_empty(&self) -> (b: bool)
        ensures
            b == (self@.transitions.len() == 0),
    {
        self.transitions.len() == 0
    }

    /// The entry transition, if the execution holds any.
    pub fn peek(&self) -> (r: Option<&Transition>)
        ensures
            match r {
                Some(t) => self@.transitions.len() > 0 && t@ == self@.transitions.last(),
                None => self@.transitions.len() == 0,
            },
    {
        if self.transitions.len() == 0 {
            None
        } else {
            Some(&self.transitions[self.transitions.len() - 1])
        }
    }
}

} // verus!
