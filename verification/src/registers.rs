//! The register machine of one finalize evaluation.

use vstd::prelude::*;
use crate::error::{BindError, CommandError};
use crate::program::Operand;
use crate::types::{Value, ValueType};

verus! {

/// The registers as a mathematical value: the type table, and under each index
/// the value that the register holds, if it was written.
pub struct RegistersView {
    pub types: Seq<ValueType>,
    pub values: Seq<Option<Value>>,
}

impl RegistersView {
    /// The registers right after creation: no register is written.
    pub open spec fn created(types: Seq<ValueType>) -> RegistersView {
        RegistersView { types, values: Seq::new(types.len(), |i: int| None::<Value>) }
    }

    /// No register is written.
    pub open spec fn is_blank(self) -> bool {
        forall|i: int| 0 <= i < self.values.len() ==> self.values[i] is None
    }

    /// Every register is in the table, and a written register holds a value of
    /// its type.
    pub open spec fn wf(self) -> bool {
        &&& self.types.len() == self.values.len()
        &&& forall|i: int|
            0 <= i < self.values.len() ==> (#[trigger] self.values[i] matches Some(v)
                ==> v.spec_has_type(self.types[i]))
    }

    /// Reading a register: it must be in the table and written.
    pub open spec fn load(self, register: u64) -> Result<Value, CommandError> {
        if register < self.values.len() && self.values[register as int] is Some {
            Ok(self.values[register as int]->0)
        } else {
            Err(CommandError::UndefinedRegister)
        }
    }

    /// Reading an operand. A literal must be canonical.
    pub open spec fn load_operand(self, operand: Operand) -> Result<Value, CommandError> {
        match operand {
            Operand::Literal(v) => if v.spec_is_canonical() {
                Ok(v)
            } else {
                Err(CommandError::TypeMismatch)
            },
            Operand::Register(r) => self.load(r),
        }
    }

    /// Writing a register: it must be in the table, not yet written, and the
    /// value must belong to its type.
    pub open spec fn store(self, register: u64, value: Value) -> Result<
        RegistersView,
        CommandError,
    > {
        if register >= self.types.len() {
            Err(CommandError::UndefinedRegister)
        } else if self.values[register as int] is Some {
            Err(CommandError::RegisterReassigned)
        } else if !value.spec_has_type(self.types[register as int]) {
            Err(CommandError::TypeMismatch)
        } else {
            Ok(
                RegistersView {
                    types: self.types,
                    values: self.values.update(register as int, Some(value)),
                },
            )
        }
    }

    /// Binding the first `n` inputs to their registers, in order. The error
    /// names the first input that could not be bound.
    pub open spec fn bind(self, registers: Seq<u64>, inputs: Seq<Value>, n: nat) -> Result<
        RegistersView,
        (int, CommandError),
    >
        decreases n,
    {
        if n == 0 {
            Ok(self)
        } else {
            match self.bind(registers, inputs, (n - 1) as nat) {
                Err(e) => Err(e),
                Ok(bound) => match bound.store(registers[n - 1], inputs[n - 1]) {
                    Ok(next) => Ok(next),
                    Err(cause) => Err((n - 1, cause)),
                },
            }
        }
    }

    /// Once an input cannot be bound, binding more inputs fails in the same way.
    pub proof fn lemma_bind_fails_on(
        self,
        registers: Seq<u64>,
        inputs: Seq<Value>,
        n: nat,
        m: nat,
    )
        requires
            self.bind(registers, inputs, n) is Err,
            n <= m,
        ensures
            self.bind(registers, inputs, m) == self.bind(registers, inputs, n),
        decreases m,
    {
        if n < m {
            self.lemma_bind_fails_on(registers, inputs, n, (m - 1) as nat);
        }
    }
}

/// The registers of one finalize evaluation. Each register is written at most
/// once.
#[derive(Debug)]
pub struct FinalizeRegisters {
    types: Vec<ValueType>,
    values: Vec<Option<Value>>,
}

impl View for FinalizeRegisters {
    type V = RegistersView;

    closed spec fn view(&self) -> RegistersView {
        RegistersView { types: self.types@, values: self.values@ }
    }
}

impl FinalizeRegisters {
    /// The representation invariant.
    pub open spec fn wf(&self) -> bool {
        self@.wf()
    }

    /// Registers over a type table, none of them written.
    pub fn new(types: Vec<ValueType>) -> (registers: FinalizeRegisters)
        ensures
            registers.wf(),
            registers@ == RegistersView::created(types@),
            registers@.is_blank(),
    {
        let mut values: Vec<Option<Value>> = Vec::new();
        let mut i: usize = 0;
        while i < types.len()
            invariant
                i <= types.len(),
                values@.len() == i,
                forall|k: int| 0 <= k < i ==> values@[k] is None,
            decreases types.len() - i,
        {
            values.push(None);
            i += 1;
        }
        let registers = FinalizeRegisters { types, values };
        assert(registers@.values =~= RegistersView::created(types@).values);
        registers
    }

    /// Reads a register.
    pub fn load(&self, register: u64) -> (r: Result<Value, CommandError>)
        requires
            self.wf(),
        ensures
            r == self@.load(register),
    {
        if register >= self.values.len() as u64 {
            return Err(CommandError::UndefinedRegister);
        }
        match self.values[register as usize] {
            Some(v) => Ok(v),
            None => Err(CommandError::UndefinedRegister),
        }
    }

    /// Reads an operand.
    pub fn load_operand(&self, operand: &Operand) -> (r: Result<Value, CommandError>)
        requires
            self.wf(),
        ensures
            r == self@.load_operand(*operand),
    {
        match operand {
            Operand::Literal(v) => if v.is_canonical() {
                Ok(*v)
            } else {
                Err(CommandError::TypeMismatch)
            },
            Operand::Register(r) => self.load(*r),
        }
    }

    /// Writes a register. On an error the registers are unchanged.
    pub fn store(&mut self, register: u64, value: Value) -> (r: Result<(), CommandError>)
        requires
            old(self).wf(),
        ensures
            final(self).wf(),
            match r {
                Ok(_) => old(self)@.store(register, value) == Ok::<RegistersView, CommandError>(
                    final(self)@,
                ),
                Err(e) => old(self)@.store(register, value) == Err::<RegistersView, CommandError>(e)
                    && final(self)@ == old(self)@,
            },
    {
        if register >= self.types.len() as u64 {
            return Err(CommandError::UndefinedRegister);
        }
        let index = register as usize;
        if self.values[index].is_some() {
            return Err(CommandError::RegisterReassigned);
        }
        if !value.has_type(self.types[index]) {
            return Err(CommandError::TypeMismatch);
        }
        self.values.set(index, Some(value));
        Ok(())
    }

    /// Binds the inputs to the given registers, in order. Where their numbers
    /// differ nothing is bound. Where a register refuses its input, the inputs
    /// before that one are bound, and no other.
    pub fn bind_inputs(&mut self, registers: &Vec<u64>, inputs: &Vec<Value>) -> (r: Result<
        (),
        BindError,
    >)
        requires
            old(self).wf(),
        ensures
            final(self).wf(),
            match r {
                Ok(_) => {
                    &&& registers@.len() == inputs@.len()
                    &&& old(self)@.bind(registers@, inputs@, inputs@.len()) == Ok::<
                        RegistersView,
                        (int, CommandError),
                    >(final(self)@)
                },
                Err(BindError::CountMismatch { expected, found }) => {
                    &&& registers@.len() != inputs@.len()
                    &&& expected == registers@.len()
                    &&& found == inputs@.len()
                    &&& final(self)@ == old(self)@
                },
                Err(BindError::Register { index, cause }) => {
                    &&& registers@.len() == inputs@.len()
                    &&& index < inputs@.len()
                    &&& old(self)@.bind(registers@, inputs@, inputs@.len()) == Err::<
                        RegistersView,
                        (int, CommandError),
                    >((index as int, cause))
                    &&& old(self)@.bind(registers@, inputs@, index as nat) == Ok::<
                        RegistersView,
                        (int, CommandError),
                    >(final(self)@)
                },
            },
    {
        if registers.len() != inputs.len() {
            return Err(
                BindError::CountMismatch { expected: registers.len(), found: inputs.len() },
            );
        }
        let mut i: usize = 0;
        while i < inputs.len()
            invariant
                i <= inputs@.len(),
                registers@.len() == inputs@.len(),
                self.wf(),
                old(self)@.bind(registers@, inputs@, i as nat) == Ok::<
                    RegistersView,
                    (int, CommandError),
                >(self@),
            decreases inputs@.len() - i,
        {
            match self.store(registers[i], inputs[i]) {
                Ok(_) => {},
                Err(cause) => {
                    proof {
                        old(self)@.lemma_bind_fails_on(
                            registers@,
                            inputs@,
                            (i + 1) as nat,
                            inputs@.len(),
                        );
                    }
                    return Err(BindError::Register { index: i, cause });
                },
            }
            i += 1;
        }
        Ok(())
    }
}

} // verus!
