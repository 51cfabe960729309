//! The command interpreter: what one finalize command does to the store and to
//! the registers.

use vstd::prelude::*;
use crate::error::{CommandError, MappingError};
use crate::program::{Command, Mapping, Operand, ProgramView};
use crate::registers::{FinalizeRegisters, RegistersView};
use crate::stack::Stack;
use crate::store::{FinalizeOperation, FinalizeStore, StoreState};
use crate::types::{
    apply,
    spec_apply,
    spec_zero,
    zero,
    Identifier,
    MappingId,
    Opcode,
    Value,
    ValueType,
};

verus! {

/// What a command that succeeded leaves behind: the state of the store, the
/// registers, and the operation that the store applied, if the command is a
/// mapping write.
pub struct CommandEffect {
    pub state: StoreState,
    pub registers: RegistersView,
    pub operation: Option<FinalizeOperation>,
}

/// The effect of a command that writes `value` to `destination` and leaves the
/// store alone.
pub open spec fn spec_written(
    state: StoreState,
    registers: RegistersView,
    destination: u64,
    value: Value,
) -> Result<CommandEffect, CommandError> {
    match registers.store(destination, value) {
        Ok(next) => Ok(CommandEffect { state, registers: next, operation: None }),
        Err(e) => Err(e),
    }
}

/// The effect of a mapping write, given what the store makes of it. Outside an
/// atomic batch scope every write is refused.
pub open spec fn spec_mutated(
    in_batch: bool,
    registers: RegistersView,
    outcome: Result<StoreState, MappingError>,
    operation: FinalizeOperation,
) -> Result<CommandEffect, CommandError> {
    if !in_batch {
        Err(CommandError::Mapping(MappingError::NoOpenBatch))
    } else {
        match outcome {
            Ok(next) => Ok(CommandEffect { state: next, registers, operation: Some(operation) }),
            Err(e) => Err(CommandError::Mapping(e)),
        }
    }
}

/// The value that an increment writes: the sum of the amount and of the value
/// that the key holds, or of the zero of the amount's type where it holds none.
pub open spec fn spec_incremented(held: Option<Value>, amount: Value) -> Result<
    Value,
    CommandError,
> {
    match held {
        Some(v) => spec_apply(Opcode::Add, v, amount),
        None => match spec_zero(amount.spec_type_of()) {
            Some(z) => spec_apply(Opcode::Add, z, amount),
            None => Err(CommandError::TypeMismatch),
        },
    }
}

/// Two operands, read from left to right: the first that cannot be read decides
/// the error.
pub open spec fn spec_load_pair(registers: RegistersView, first: Operand, second: Operand) -> Result<
    (Value, Value),
    CommandError,
> {
    match registers.load_operand(first) {
        Err(e) => Err(e),
        Ok(a) => match registers.load_operand(second) {
            Err(e) => Err(e),
            Ok(b) => Ok((a, b)),
        },
    }
}

/// An operand that must be of a given type.
pub open spec fn spec_load_typed(registers: RegistersView, operand: Operand, ty: ValueType) -> Result<
    Value,
    CommandError,
> {
    match registers.load_operand(operand) {
        Err(e) => Err(e),
        Ok(v) => if v.spec_has_type(ty) {
            Ok(v)
        } else {
            Err(CommandError::TypeMismatch)
        },
    }
}

/// A key and a value for a mapping, read from left to right, each of the type
/// that the mapping declares for it.
pub open spec fn spec_load_entry(
    registers: RegistersView,
    key: Operand,
    value: Operand,
    declared: Mapping,
) -> Result<(Value, Value), CommandError> {
    match spec_load_typed(registers, key, declared.key_type) {
        Err(e) => Err(e),
        Ok(k) => match spec_load_typed(registers, value, declared.value_type) {
            Err(e) => Err(e),
            Ok(v) => Ok((k, v)),
        },
    }
}

/// The declaration of the mapping that a command names.
pub open spec fn spec_declared(program: ProgramView, name: Identifier) -> Result<
    Mapping,
    CommandError,
> {
    match program.mapping(name) {
        Some(declared) => Ok(declared),
        None => Err(CommandError::Mapping(MappingError::NotDeclared)),
    }
}

pub open spec fn spec_compute(
    opcode: Opcode,
    first: Operand,
    second: Operand,
    destination: u64,
    state: StoreState,
    registers: RegistersView,
) -> Result<CommandEffect, CommandError> {
    match spec_load_pair(registers, first, second) {
        Err(e) => Err(e),
        Ok((a, b)) => match spec_apply(opcode, a, b) {
            Err(e) => Err(e),
            Ok(v) => spec_written(state, registers, destination, v),
        },
    }
}

pub open spec fn spec_get(
    id: MappingId,
    declared: Mapping,
    key: Operand,
    destination: u64,
    state: StoreState,
    registers: RegistersView,
) -> Result<CommandEffect, CommandError> {
    match spec_load_typed(registers, key, declared.key_type) {
        Err(e) => Err(e),
        Ok(k) => match state.read(id, k) {
            Err(e) => Err(CommandError::Mapping(e)),
            Ok(None) => Err(CommandError::Mapping(MappingError::KeyNotFound)),
            Ok(Some(v)) => spec_written(state, registers, destination, v),
        },
    }
}

pub open spec fn spec_get_or_use(
    id: MappingId,
    declared: Mapping,
    key: Operand,
    default: Operand,
    destination: u64,
    state: StoreState,
    registers: RegistersView,
) -> Result<CommandEffect, CommandError> {
    match spec_load_entry(registers, key, default, declared) {
        Err(e) => Err(e),
        Ok((k, d)) => match state.read(id, k) {
            Err(e) => Err(CommandError::Mapping(e)),
            Ok(None) => spec_written(state, registers, destination, d),
            Ok(Some(v)) => spec_written(state, registers, destination, v),
        },
    }
}

pub open spec fn spec_insert(
    id: MappingId,
    declared: Mapping,
    key: Operand,
    value: Operand,
    in_batch: bool,
    state: StoreState,
    registers: RegistersView,
) -> Result<CommandEffect, CommandError> {
    match spec_load_entry(registers, key, value, declared) {
        Err(e) => Err(e),
        Ok((k, v)) => spec_mutated(
            in_batch,
            registers,
            state.insert(id, k, v),
            FinalizeOperation::InsertKeyValue { mapping: id, key: k, value: v },
        ),
    }
}

pub open spec fn spec_put(
    id: MappingId,
    declared: Mapping,
    key: Operand,
    value: Operand,
    in_batch: bool,
    state: StoreState,
    registers: RegistersView,
) -> Result<CommandEffect, CommandError> {
    match spec_load_entry(registers, key, value, declared) {
        Err(e) => Err(e),
        Ok((k, v)) => spec_mutated(
            in_batch,
            registers,
            state.update(id, k, v),
            FinalizeOperation::UpdateKeyValue { mapping: id, key: k, value: v },
        ),
    }
}

pub open spec fn spec_increment(
    id: MappingId,
    declared: Mapping,
    key: Operand,
    amount: Operand,
    in_batch: bool,
    state: StoreState,
    registers: RegistersView,
) -> Result<CommandEffect, CommandError> {
    match spec_load_entry(registers, key, amount, declared) {
        Err(e) => Err(e),
        Ok((k, a)) => match state.read(id, k) {
            Err(e) => Err(CommandError::Mapping(e)),
            Ok(held) => match spec_incremented(held, a) {
                Err(e) => Err(e),
                Ok(v) => spec_mutated(
                    in_batch,
                    registers,
                    state.update(id, k, v),
                    FinalizeOperation::UpdateKeyValue { mapping: id, key: k, value: v },
                ),
            },
        },
    }
}

pub open spec fn spec_remove(
    id: MappingId,
    declared: Mapping,
    key: Operand,
    in_batch: bool,
    state: StoreState,
    registers: RegistersView,
) -> Result<CommandEffect, CommandError> {
    match spec_load_typed(registers, key, declared.key_type) {
        Err(e) => Err(e),
        Ok(k) => spec_mutated(
            in_batch,
            registers,
            state.remove(id, k),
            FinalizeOperation::RemoveKeyValue { mapping: id, key: k },
        ),
    }
}

/// The meaning of a command on a mapping of a program: the mapping must be
/// declared, and the command works on the mapping of that name of that
/// program.
pub open spec fn spec_on_mapping(
    command: Command,
    program: ProgramView,
    mapping: Identifier,
    in_batch: bool,
    state: StoreState,
    registers: RegistersView,
) -> Result<CommandEffect, CommandError> {
    let id = MappingId { program: program.id, name: mapping };
    match spec_declared(program, mapping) {
        Err(e) => Err(e),
        Ok(declared) => match command {
            Command::Get { key, destination, .. } => spec_get(
                id,
                declared,
                key,
                destination,
                state,
                registers,
            ),
            Command::GetOrUse { key, default, destination, .. } => spec_get_or_use(
                id,
                declared,
                key,
                default,
                destination,
                state,
                registers,
            ),
            Command::Insert { key, value, .. } => spec_insert(
                id,
                declared,
                key,
                value,
                in_batch,
                state,
                registers,
            ),
            Command::Put { key, value, .. } => spec_put(
                id,
                declared,
                key,
                value,
                in_batch,
                state,
                registers,
            ),
            Command::Increment { key, amount, .. } => spec_increment(
                id,
                declared,
                key,
                amount,
                in_batch,
                state,
                registers,
            ),
            Command::Remove { key, .. } => spec_remove(
                id,
                declared,
                key,
                in_batch,
                state,
                registers,
            ),
            Command::Compute { .. } => Err(CommandError::TypeMismatch),
        },
    }
}

/// The meaning of a command of a program, on a store in state `state` (with or
/// without an open batch scope) and on registers `registers`.
///
/// A command on a mapping reads and writes keys and values of the types that
/// the program declares for the mapping. A command writes at most once, as its
/// last step, so a command that fails changes nothing.
pub open spec fn spec_finalize(
    command: Command,
    program: ProgramView,
    in_batch: bool,
    state: StoreState,
    registers: RegistersView,
) -> Result<CommandEffect, CommandError> {
    match command {
        Command::Compute { opcode, first, second, destination } => spec_compute(
            opcode,
            first,
            second,
            destination,
            state,
            registers,
        ),
        Command::Get { mapping, .. } => spec_on_mapping(
            command,
            program,
            mapping,
            in_batch,
            state,
            registers,
        ),
        Command::GetOrUse { mapping, .. } => spec_on_mapping(
            command,
            program,
            mapping,
            in_batch,
            state,
            registers,
        ),
        Command::Insert { mapping, .. } => spec_on_mapping(
            command,
            program,
            mapping,
            in_batch,
            state,
            registers,
        ),
        Command::Put { mapping, .. } => spec_on_mapping(
            command,
            program,
            mapping,
            in_batch,
            state,
            registers,
        ),
        Command::Increment { mapping, .. } => spec_on_mapping(
            command,
            program,
            mapping,
            in_batch,
            state,
            registers,
        ),
        Command::Remove { mapping, .. } => spec_on_mapping(
            command,
            program,
            mapping,
            in_batch,
            state,
            registers,
        ),
    }
}

/// How the result of an evaluation, and the store and the registers after it,
/// follow from what the command means on the store and the registers before it.
pub open spec fn spec_evaluated(
    meaning: Result<CommandEffect, CommandError>,
    state: StoreState,
    registers: RegistersView,
    state_after: StoreState,
    registers_after: RegistersView,
    r: Result<Option<FinalizeOperation>, CommandError>,
) -> bool {
    match r {
        Ok(operation) => meaning == Ok::<CommandEffect, CommandError>(
            CommandEffect { state: state_after, registers: registers_after, operation },
        ),
        Err(e) => {
            &&& meaning == Err::<CommandEffect, CommandError>(e)
            &&& state_after == state
            &&& registers_after == registers
        },
    }
}

fn load_pair(registers: &FinalizeRegisters, first: &Operand, second: &Operand) -> (r: Result<
    (Value, Value),
    CommandError,
>)
    requires
        registers.wf(),
    ensures
        r == spec_load_pair(registers@, *first, *second),
{
    let a = match registers.load_operand(first) {
        Ok(a) => a,
        Err(e) => return Err(e),
    };
    match registers.load_operand(second) {
        Ok(b) => Ok((a, b)),
        Err(e) => Err(e),
    }
}

fn load_typed(registers: &FinalizeRegisters, operand: &Operand, ty: ValueType) -> (r: Result<
    Value,
    CommandError,
>)
    requires
        registers.wf(),
    ensures
        r == spec_load_typed(registers@, *operand, ty),
{
    match registers.load_operand(operand) {
        Err(e) => Err(e),
        Ok(v) => if v.has_type(ty) {
            Ok(v)
        } else {
            Err(CommandError::TypeMismatch)
        },
    }
}

fn load_entry(registers: &FinalizeRegisters, key: &Operand, value: &Operand, declared: Mapping) -> (r:
    Result<(Value, Value), CommandError>)
    requires
        registers.wf(),
    ensures
        r == spec_load_entry(registers@, *key, *value, declared),
{
    let k = match load_typed(registers, key, declared.key_type) {
        Ok(k) => k,
        Err(e) => return Err(e),
    };
    match load_typed(registers, value, declared.value_type) {
        Ok(v) => Ok((k, v)),
        Err(e) => Err(e),
    }
}

/// Writes the value that a command computed or read to its destination.
fn write_register(
    registers: &mut FinalizeRegisters,
    destination: u64,
    value: Value,
    state: Ghost<StoreState>,
) -> (r: Result<Option<FinalizeOperation>, CommandError>)
    requires
        old(registers).wf(),
    ensures
        final(registers).wf(),
        spec_evaluated(
            spec_written(state@, old(registers)@, destination, value),
            state@,
            old(registers)@,
            state@,
            final(registers)@,
            r,
        ),
{
    match registers.store(destination, value) {
        Ok(_) => Ok(None),
        Err(e) => Err(e),
    }
}

/// The result of a mapping write, from what the store returned.
fn written_to_store(outcome: Result<FinalizeOperation, MappingError>) -> (r: Result<
    Option<FinalizeOperation>,
    CommandError,
>)
    ensures
        r == match outcome {
            Ok(operation) => Ok::<Option<FinalizeOperation>, CommandError>(Some(operation)),
            Err(e) => Err::<Option<FinalizeOperation>, CommandError>(CommandError::Mapping(e)),
        },
{
    match outcome {
        Ok(operation) => Ok(Some(operation)),
        Err(e) => Err(CommandError::Mapping(e)),
    }
}

/// The value that an increment writes.
pub fn incremented(held: Option<Value>, amount: Value) -> (r: Result<Value, CommandError>)
    ensures
        r == spec_incremented(held, amount),
{
    match held {
        Some(v) => apply(Opcode::Add, v, amount),
        None => match zero(amount.type_of()) {
            Some(z) => apply(Opcode::Add, z, amount),
            None => Err(CommandError::TypeMismatch),
        },
    }
}

fn compute(
    opcode: Opcode,
    first: &Operand,
    second: &Operand,
    destination: u64,
    store: &FinalizeStore,
    registers: &mut FinalizeRegisters,
) -> (r: Result<Option<FinalizeOperation>, CommandError>)
    requires
        store.wf(),
        old(registers).wf(),
    ensures
        final(registers).wf(),
        spec_evaluated(
            spec_compute(opcode, *first, *second, destination, store.current(), old(registers)@),
            store.current(),
            old(registers)@,
            store.current(),
            final(registers)@,
            r,
        ),
{
    let (a, b) = match load_pair(registers, first, second) {
        Ok(pair) => pair,
        Err(e) => return Err(e),
    };
    let v = match apply(opcode, a, b) {
        Ok(v) => v,
        Err(e) => return Err(e),
    };
    write_register(registers, destination, v, Ghost(store.current()))
}

fn get(
    id: MappingId,
    declared: Mapping,
    key: &Operand,
    destination: u64,
    store: &FinalizeStore,
    registers: &mut FinalizeRegisters,
) -> (r: Result<Option<FinalizeOperation>, CommandError>)
    requires
        store.wf(),
        old(registers).wf(),
    ensures
        final(registers).wf(),
        spec_evaluated(
            spec_get(id, declared, *key, destination, store.current(), old(registers)@),
            store.current(),
            old(registers)@,
            store.current(),
            final(registers)@,
            r,
        ),
{
    let k = match load_typed(registers, key, declared.key_type) {
        Ok(k) => k,
        Err(e) => return Err(e),
    };
    let v = match store.get_value(id, k) {
        Err(e) => return Err(CommandError::Mapping(e)),
        Ok(None) => return Err(CommandError::Mapping(MappingError::KeyNotFound)),
        Ok(Some(v)) => v,
    };
    write_register(registers, destination, v, Ghost(store.current()))
}

fn get_or_use(
    id: MappingId,
    declared: Mapping,
    key: &Operand,
    default: &Operand,
    destination: u64,
    store: &FinalizeStore,
    registers: &mut FinalizeRegisters,
) -> (r: Result<Option<FinalizeOperation>, CommandError>)
    requires
        store.wf(),
        old(registers).wf(),
    ensures
        final(registers).wf(),
        spec_evaluated(
            spec_get_or_use(
                id,
                declared,
                *key,
                *default,
                destination,
                store.current(),
                old(registers)@,
            ),
            store.current(),
            old(registers)@,
            store.current(),
            final(registers)@,
            r,
        ),
{
    let (k, d) = match load_entry(registers, key, default, declared) {
        Ok(pair) => pair,
        Err(e) => return Err(e),
    };
    let v = match store.get_value(id, k) {
        Err(e) => return Err(CommandError::Mapping(e)),
        Ok(None) => d,
        Ok(Some(v)) => v,
    };
    write_register(registers, destination, v, Ghost(store.current()))
}

fn insert(
    id: MappingId,
    declared: Mapping,
    key: &Operand,
    value: &Operand,
    store: &mut FinalizeStore,
    registers: &FinalizeRegisters,
) -> (r: Result<Option<FinalizeOperation>, CommandError>)
    requires
        old(store).wf(),
        registers.wf(),
    ensures
        final(store).wf(),
        final(store)@ == old(store)@,
        final(store).in_batch() == old(store).in_batch(),
        spec_evaluated(
            spec_insert(
                id,
                declared,
                *key,
                *value,
                old(store).in_batch(),
                old(store).current(),
                registers@,
            ),
            old(store).current(),
            registers@,
            final(store).current(),
            registers@,
            r,
        ),
{
    let (k, v) = match load_entry(registers, key, value, declared) {
        Ok(pair) => pair,
        Err(e) => return Err(e),
    };
    written_to_store(store.insert_key_value(id, k, v))
}

fn put(
    id: MappingId,
    declared: Mapping,
    key: &Operand,
    value: &Operand,
    store: &mut FinalizeStore,
    registers: &FinalizeRegisters,
) -> (r: Result<Option<FinalizeOperation>, CommandError>)
    requires
        old(store).wf(),
        registers.wf(),
    ensures
        final(store).wf(),
        final(store)@ == old(store)@,
        final(store).in_batch() == old(store).in_batch(),
        spec_evaluated(
            spec_put(
                id,
                declared,
                *key,
                *value,
                old(store).in_batch(),
                old(store).current(),
                registers@,
            ),
            old(store).current(),
            registers@,
            final(store).current(),
            registers@,
            r,
        ),
{
    let (k, v) = match load_entry(registers, key, value, declared) {
        Ok(pair) => pair,
        Err(e) => return Err(e),
    };
    written_to_store(store.update_key_value(id, k, v))
}

fn increment(
    id: MappingId,
    declared: Mapping,
    key: &Operand,
    amount: &Operand,
    store: &mut FinalizeStore,
    registers: &FinalizeRegisters,
) -> (r: Result<Option<FinalizeOperation>, CommandError>)
    requires
        old(store).wf(),
        registers.wf(),
    ensures
        final(store).wf(),
        final(store)@ == old(store)@,
        final(store).in_batch() == old(store).in_batch(),
        spec_evaluated(
            spec_increment(
                id,
                declared,
                *key,
                *amount,
                old(store).in_batch(),
                old(store).current(),
                registers@,
            ),
            old(store).current(),
            registers@,
            final(store).current(),
            registers@,
            r,
        ),
{
    let (k, a) = match load_entry(registers, key, amount, declared) {
        Ok(pair) => pair,
        Err(e) => return Err(e),
    };
    let held = match store.get_value(id, k) {
        Ok(held) => held,
        Err(e) => return Err(CommandError::Mapping(e)),
    };
    let v = match incremented(held, a) {
        Ok(v) => v,
        Err(e) => return Err(e),
    };
    written_to_store(store.update_key_value(id, k, v))
}

fn remove(
    id: MappingId,
    declared: Mapping,
    key: &Operand,
    store: &mut FinalizeStore,
    registers: &FinalizeRegisters,
) -> (r: Result<Option<FinalizeOperation>, CommandError>)
    requires
        old(store).wf(),
        registers.wf(),
    ensures
        final(store).wf(),
        final(store)@ == old(store)@,
        final(store).in_batch() == old(store).in_batch(),
        spec_evaluated(
            spec_remove(
                id,
                declared,
                *key,
                old(store).in_batch(),
                old(store).current(),
                registers@,
            ),
            old(store).current(),
            registers@,
            final(store).current(),
            registers@,
            r,
        ),
{
    let k = match load_typed(registers, key, declared.key_type) {
        Ok(k) => k,
        Err(e) => return Err(e),
    };
    written_to_store(store.remove_key_value(id, k))
}

/// The declaration of the mapping that a command names.
fn declared_mapping(stack: &Stack, name: Identifier) -> (r: Result<Mapping, CommandError>)
    ensures
        r == spec_declared(stack@.program, name),
{
    match stack.program().find_mapping(name) {
        Some(declared) => Ok(declared),
        None => Err(CommandError::Mapping(MappingError::NotDeclared)),
    }
}

/// Evaluates a command on a mapping.
fn on_mapping(
    command: &Command,
    stack: &Stack,
    mapping: Identifier,
    store: &mut FinalizeStore,
    registers: &mut FinalizeRegisters,
) -> (r: Result<Option<FinalizeOperation>, CommandError>)
    requires
        old(store).wf(),
        old(registers).wf(),
    ensures
        final(store).wf(),
        final(registers).wf(),
        final(store)@ == old(store)@,
        final(store).in_batch() == old(store).in_batch(),
        spec_evaluated(
            spec_on_mapping(
                *command,
                stack@.program,
                mapping,
                old(store).in_batch(),
                old(store).current(),
                old(registers)@,
            ),
            old(store).current(),
            old(registers)@,
            final(store).current(),
            final(registers)@,
            r,
        ),
{
    let id = MappingId { program: stack.program_id(), name: mapping };
    let declared = match declared_mapping(stack, mapping) {
        Ok(declared) => declared,
        Err(e) => return Err(e),
    };
    match command {
        Command::Get { key, destination, .. } => get(
            id,
            declared,
            key,
            *destination,
            store,
            registers,
        ),
        Command::GetOrUse { key, default, destination, .. } => get_or_use(
            id,
            declared,
            key,
            default,
            *destination,
            store,
            registers,
        ),
        Command::Insert { key, value, .. } => insert(id, declared, key, value, store, registers),
        Command::Put { key, value, .. } => put(id, declared, key, value, store, registers),
        Command::Increment { key, amount, .. } => increment(
            id,
            declared,
            key,
            amount,
            store,
            registers,
        ),
        Command::Remove { key, .. } => remove(id, declared, key, store, registers),
        Command::Compute { .. } => Err(CommandError::TypeMismatch),
    }
}

impl Command {
    /// Whether the command is a mapping write.
    pub open spec fn spec_is_write(self) -> bool {
        match self {
            Command::Insert { .. } => true,
            Command::Put { .. } => true,
            Command::Increment { .. } => true,
            Command::Remove { .. } => true,
            _ => false,
        }
    }

    /// Evaluates the command for the program of a stack.
    ///
    /// The result is the operation that the store applied, for a mapping write,
    /// and `None` for every other command. Every failure comes back as an error,
    /// a fault of the evaluation too. On an error neither the store nor the
    /// registers have changed. The committed state of the store never changes.
    pub fn finalize(
        &self,
        stack: &Stack,
        store: &mut FinalizeStore,
        registers: &mut FinalizeRegisters,
    ) -> (r: Result<Option<FinalizeOperation>, CommandError>)
        requires
            old(store).wf(),
            old(registers).wf(),
        ensures
            final(store).wf(),
            final(registers).wf(),
            final(store)@ == old(store)@,
            final(store).in_batch() == old(store).in_batch(),
            spec_evaluated(
                spec_finalize(
                    *self,
                    stack@.program,
                    old(store).in_batch(),
                    old(store).current(),
                    old(registers)@,
                ),
                old(store).current(),
                old(registers)@,
                final(store).current(),
                final(registers)@,
                r,
            ),
    {
        match self {
            Command::Compute { opcode, first, second, destination } => compute(
                *opcode,
                first,
                second,
                *destination,
                store,
                registers,
            ),
            Command::Get { mapping, .. } => on_mapping(self, stack, *mapping, store, registers),
            Command::GetOrUse { mapping, .. } => on_mapping(self, stack, *mapping, store, registers),
            Command::Insert { mapping, .. } => on_mapping(self, stack, *mapping, store, registers),
            Command::Put { mapping, .. } => on_mapping(self, stack, *mapping, store, registers),
            Command::Increment { mapping, .. } => on_mapping(
                self,
                stack,
                *mapping,
                store,
                registers,
            ),
            Command::Remove { mapping, .. } => on_mapping(self, stack, *mapping, store, registers),
        }
    }
}

} // verus!
