//! Programs: mappings, functions and their finalize scopes.

use vstd::prelude::*;
use crate::types::{Identifier, MappingId, Opcode, ProgramId, Value, ValueType};

verus! {

/// A declared mapping: its name and the types of its keys and values.
#[derive(Clone, Copy, Debug, PartialEq, Eq, Structural)]
pub struct Mapping {
    pub name: Identifier,
    pub key_type: ValueType,
    pub value_type: ValueType,
}

/// What a command or a call reads: a literal, or the register of that index.
#[derive(Clone, Copy, Debug, PartialEq, Eq, Structural)]
pub enum Operand {
    Literal(Value),
    Register(u64),
}

/// One command of a finalize scope.
#[derive(Clone, Copy, Debug, PartialEq, Eq, Structural)]
pub enum Command {
    /// Applies `opcode` to two operands and writes the result to `destination`.
    Compute { opcode: Opcode, first: Operand, second: Operand, destination: u64 },
    /// Reads the value under `key` and writes it to `destination`.
    Get { mapping: Identifier, key: Operand, destination: u64 },
    /// Reads the value under `key`, or takes `default` where the key holds none,
    /// and writes it to `destination`.
    GetOrUse { mapping: Identifier, key: Operand, default: Operand, destination: u64 },
    /// Inserts `value` under `key`, which must hold none.
    Insert { mapping: Identifier, key: Operand, value: Operand },
    /// Sets the value under `key` to `value`.
    Put { mapping: Identifier, key: Operand, value: Operand },
    /// Adds `amount` to the value under `key`, counting from zero where the key
    /// holds none.
    Increment { mapping: Identifier, key: Operand, amount: Operand },
    /// Removes `key`, which must hold a value.
    Remove { mapping: Identifier, key: Operand },
}

/// The finalize scope of a function.
#[derive(Debug, PartialEq, Eq)]
pub struct Finalize {
    pub name: Identifier,
    /// What a call hands to the scope, read from the function's inputs as a
    /// call's arguments are: these become the recorded finalize inputs.
    pub arguments: Vec<Operand>,
    /// The registers that the recorded finalize inputs are bound to, in order.
    pub inputs: Vec<u64>,
    /// The type table: the type of each register, by index.
    pub register_types: Vec<ValueType>,
    pub commands: Vec<Command>,
}

/// A call of another function from a function's body. Its arguments are read
/// from the caller's inputs: register `i` is the caller's input `i`.
#[derive(Debug, PartialEq, Eq)]
pub struct Call {
    pub program_id: ProgramId,
    pub function_name: Identifier,
    pub arguments: Vec<Operand>,
}

/// A function of a program.
#[derive(Debug, PartialEq, Eq)]
pub struct Function {
    pub name: Identifier,
    pub input_types: Vec<ValueType>,
    /// The calls that the body makes, in order.
    pub calls: Vec<Call>,
    /// The outputs, read from the inputs as a call's arguments are.
    pub outputs: Vec<Operand>,
    pub finalize: Option<Finalize>,
}

/// A program.
#[derive(Debug, PartialEq, Eq)]
pub struct Program {
    pub id: ProgramId,
    pub mappings: Vec<Mapping>,
    pub functions: Vec<Function>,
}

pub struct FinalizeView {
    pub name: Identifier,
    pub arguments: Seq<Operand>,
    pub inputs: Seq<u64>,
    pub register_types: Seq<ValueType>,
    pub commands: Seq<Command>,
}

pub struct CallView {
    pub program_id: ProgramId,
    pub function_name: Identifier,
    pub arguments: Seq<Operand>,
}

pub struct FunctionView {
    pub name: Identifier,
    pub input_types: Seq<ValueType>,
    pub calls: Seq<CallView>,
    pub outputs: Seq<Operand>,
    pub finalize: Option<FinalizeView>,
}

pub struct ProgramView {
    pub id: ProgramId,
    pub mappings: Seq<Mapping>,
    pub functions: Seq<FunctionView>,
}

impl View for Finalize {
    type V = FinalizeView;

    open spec fn view(&self) -> FinalizeView {
        FinalizeView {
            name: self.name,
            arguments: self.arguments@,
            inputs: self.inputs@,
            register_types: self.register_types@,
            commands: self.commands@,
        }
    }
}

impl View for Call {
    type V = CallView;

    open spec fn view(&self) -> CallView {
        CallView {
            program_id: self.program_id,
            function_name: self.function_name,
            arguments: self.arguments@,
        }
    }
}

impl View for Function {
    type V = FunctionView;

    open spec fn view(&self) -> FunctionView {
        FunctionView {
            name: self.name,
            input_types: self.input_types@,
            calls: self.calls@.map_values(|c: Call| c@),
            outputs: self.outputs@,
            finalize: match self.finalize {
                Some(f) => Some(f@),
                None => None,
            },
        }
    }
}

impl View for Program {
    type V = ProgramView;

    open spec fn view(&self) -> ProgramView {
        ProgramView {
            id: self.id,
            mappings: self.mappings@,
            functions: self.functions@.map_values(|f: Function| f@),
        }
    }
}

impl ProgramView {
    /// The names of the functions, in declaration order.
    pub open spec fn function_names(self) -> Seq<Identifier> {
        self.functions.map_values(|f: FunctionView| f.name)
    }

    /// The index of the first function of that name.
    pub open spec fn function_index(self, name: Identifier) -> Option<int> {
        self.function_names().index_of_first(name)
    }

    /// The first function of that name.
    pub open spec fn function(self, name: Identifier) -> Option<FunctionView> {
        match self.function_index(name) {
            Some(i) => Some(self.functions[i]),
            None => None,
        }
    }

    /// The names of the declared mappings, in declaration order.
    pub open spec fn mapping_names(self) -> Seq<Identifier> {
        self.mappings.map_values(|m: Mapping| m.name)
    }

    /// The first declared mapping of that name.
    pub open spec fn mapping(self, name: Identifier) -> Option<Mapping> {
        match self.mapping_names().index_of_first(name) {
            Some(i) => Some(self.mappings[i]),
            None => None,
        }
    }

    /// The identifier under which the store knows the `i`-th declared mapping.
    pub open spec fn mapping_id(self, i: int) -> MappingId {
        MappingId { program: self.id, name: self.mappings[i].name }
    }
}

/// A copy of a vector of plain values.
pub fn copy_vec<T: Copy>(v: &Vec<T>) -> (r: Vec<T>)
    ensures
        r@ == v@,
{
    let mut r: Vec<T> = Vec::new();
    let mut i: usize = 0;
    while i < v.len()
        invariant
            i <= v.len(),
            r@ == v@.subrange(0, i as int),
        decreases v.len() - i,
    {
        r.push(v[i]);
        i += 1;
    }
    assert(v@.subrange(0, v@.len() as int) =~= v@);
    r
}

impl Finalize {
    pub fn copy(&self) -> (r: Finalize)
        ensures
            r@ == self@,
    {
        Finalize {
            name: self.name,
            arguments: copy_vec(&self.arguments),
            inputs: copy_vec(&self.inputs),
            register_types: copy_vec(&self.register_types),
            commands: copy_vec(&self.commands),
        }
    }
}

impl Call {
    pub fn copy(&self) -> (r: Call)
        ensures
            r@ == self@,
    {
        Call {
            program_id: self.program_id,
            function_name: self.function_name,
            arguments: copy_vec(&self.arguments),
        }
    }
}

impl Function {
    pub fn copy(&self) -> (r: Function)
        ensures
            r@ == self@,
    {
        let mut calls: Vec<Call> = Vec::new();
        let mut i: usize = 0;
        while i < self.calls.len()
            invariant
                i <= self.calls.len(),
                calls@.len() == i,
                forall|k: int| 0 <= k < i ==> calls@[k]@ == self.calls@[k]@,
            decreases self.calls.len() - i,
        {
            calls.push(self.calls[i].copy());
            i += 1;
        }
        let finalize = match &self.finalize {
            Some(f) => Some(f.copy()),
            None => None,
        };
        let r = Function {
            name: self.name,
            input_types: copy_vec(&self.input_types),
            calls,
            outputs: copy_vec(&self.outputs),
            finalize,
        };
        assert(r@.calls =~= self@.calls);
        r
    }
}

impl Program {
    pub fn copy(&self) -> (r: Program)
        ensures
            r@ == self@,
    {
        let mut functions: Vec<Function> = Vec::new();
        let mut i: usize = 0;
        while i < self.functions.len()
            invariant
                i <= self.functions.len(),
                functions@.len() == i,
                forall|k: int| 0 <= k < i ==> functions@[k]@ == self.functions@[k]@,
            decreases self.functions.len() - i,
        {
            functions.push(self.functions[i].copy());
            i += 1;
        }
        let r = Program { id: self.id, mappings: copy_vec(&self.mappings), functions };
        assert(r@.functions =~= self@.functions);
        r
    }

    /// Looks a declared mapping up by its name: the first that bears it.
    pub fn find_mapping(&self, name: Identifier) -> (r: Option<Mapping>)
        ensures
            r == self@.mapping(name),
    {
        let ghost names = self@.mapping_names();
        let mut i: usize = 0;
        while i < self.mappings.len()
            invariant
                i <= self.mappings.len(),
                names == self@.mapping_names(),
                forall|k: int| 0 <= k < i ==> names[k] != name,
            decreases self.mappings.len() - i,
        {
            if self.mappings[i].name == name {
                proof {
                    assert(names[i as int] == name);
                    names.index_of_first_ensures(name);
                }
                return Some(self.mappings[i]);
            }
            i += 1;
        }
        proof {
            names.index_of_first_ensures(name);
        }
        None
    }

    /// Looks a function up by its name: the index of the first that bears it.
    pub fn find_function(&self, name: Identifier) -> (r: Option<usize>)
        ensures
            match r {
                Some(i) => self@.function_index(name) == Some(i as int) && i
                    < self.functions@.len(),
                None => self@.function_index(name) is None,
            },
    {
        let ghost names = self@.function_names();
        let mut i: usize = 0;
        while i < self.functions.len()
            invariant
                i <= self.functions.len(),
                names == self@.function_names(),
                forall|k: int| 0 <= k < i ==> names[k] != name,
            decreases self.functions.len() - i,
        {
            if self.functions[i].name == name {
                proof {
                    assert(names[i as int] == name);
                    names.index_of_first_ensures(name);
                }
                return Some(i);
            }
            i += 1;
        }
        proof {
            names.index_of_first_ensures(name);
        }
        None
    }
}

} // verus!
