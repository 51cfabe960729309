//! Identifiers and typed values.

use vstd::prelude::*;
use crate::error::CommandError;

verus! {

/// The name of a program component (a function, a mapping, a finalize scope),
/// held as the integer that encodes it (see [`crate::names`]).
#[derive(Clone, Copy, Debug, PartialEq, Eq, Structural)]
pub struct Identifier {
    pub code: u64,
}

/// The identifier of a program.
#[derive(Clone, Copy, Debug, PartialEq, Eq, Structural)]
pub struct ProgramId {
    pub code: u64,
}

/// A mapping as the store knows it: the program that declares it and its name there.
#[derive(Clone, Copy, Debug, PartialEq, Eq, Structural)]
pub struct MappingId {
    pub program: ProgramId,
    pub name: Identifier,
}

/// The order of the prime field: the Mersenne prime `2^61 - 1`.
pub const FIELD_MODULUS: u64 = 2305843009213693951;

/// The sum of two residues, reduced.
pub open spec fn spec_field_add(a: u64, b: u64) -> u64 {
    ((a + b) % (FIELD_MODULUS as int)) as u64
}

/// The product of two residues, reduced.
pub open spec fn spec_field_mul(a: u64, b: u64) -> u64 {
    ((a * b) % (FIELD_MODULUS as int)) as u64
}

/// The difference of two residues, reduced.
pub open spec fn spec_field_sub(a: u64, b: u64) -> u64 {
    ((a - b) % (FIELD_MODULUS as int)) as u64
}

pub fn field_sub(a: u64, b: u64) -> (c: u64)
    ensures
        c == spec_field_sub(a, b),
        c < FIELD_MODULUS,
{
    let x: u64 = a % FIELD_MODULUS;
    let y: u64 = b % FIELD_MODULUS;
    proof {
        vstd::arithmetic::div_mod::lemma_sub_mod_noop(a as int, b as int, FIELD_MODULUS as int);
        vstd::arithmetic::div_mod::lemma_mod_add_multiples_vanish(
            x - y,
            FIELD_MODULUS as int,
        );
    }
    ((x + FIELD_MODULUS - y) % FIELD_MODULUS) as u64
}

pub fn field_add(a: u64, b: u64) -> (c: u64)
    ensures
        c == spec_field_add(a, b),
        c < FIELD_MODULUS,
{
    let sum: u128 = a as u128 + b as u128;
    (sum % (FIELD_MODULUS as u128)) as u64
}

pub fn field_mul(a: u64, b: u64) -> (c: u64)
    ensures
        c == spec_field_mul(a, b),
        c < FIELD_MODULUS,
{
    assert(a * b < 0x1_0000_0000_0000_0000 * 0x1_0000_0000_0000_0000) by (nonlinear_arith)
        requires
            a < 0x1_0000_0000_0000_0000,
            b < 0x1_0000_0000_0000_0000,
    ;
    let product: u128 = a as u128 * b as u128;
    (product % (FIELD_MODULUS as u128)) as u64
}

/// The type of a value.
#[derive(Clone, Copy, Debug, PartialEq, Eq, Structural)]
pub enum ValueType {
    Field,
    U64,
    Boolean,
    Address,
}

/// A typed datum. A field element is held as its least non-negative residue.
#[derive(Clone, Copy, Debug, PartialEq, Eq, Structural)]
pub enum Value {
    Field(u64),
    U64(u64),
    Boolean(bool),
    Address(u64),
}

/// A binary operation of the command interpreter.
#[derive(Clone, Copy, Debug, PartialEq, Eq, Structural)]
pub enum Opcode {
    Add,
    Sub,
    Mul,
    IsEq,
}

impl Value {
    /// The type that the value's variant names.
    pub open spec fn spec_type_of(self) -> ValueType {
        match self {
            Value::Field(_) => ValueType::Field,
            Value::U64(_) => ValueType::U64,
            Value::Boolean(_) => ValueType::Boolean,
            Value::Address(_) => ValueType::Address,
        }
    }

    /// A field element is canonical when it is a residue below the modulus;
    /// every other value is canonical.
    pub open spec fn spec_is_canonical(self) -> bool {
        match self {
            Value::Field(x) => x < FIELD_MODULUS,
            _ => true,
        }
    }

    /// Membership of a value in a type.
    pub open spec fn spec_has_type(self, ty: ValueType) -> bool {
        self.spec_type_of() == ty && self.spec_is_canonical()
    }

    pub fn type_of(&self) -> (ty: ValueType)
        ensures
            ty == self.spec_type_of(),
    {
        match self {
            Value::Field(_) => ValueType::Field,
            Value::U64(_) => ValueType::U64,
            Value::Boolean(_) => ValueType::Boolean,
            Value::Address(_) => ValueType::Address,
        }
    }

    pub fn is_canonical(&self) -> (b: bool)
        ensures
            b == self.spec_is_canonical(),
    {
        match self {
            Value::Field(x) => *x < FIELD_MODULUS,
            _ => true,
        }
    }

    pub fn has_type(&self, ty: ValueType) -> (b: bool)
        ensures
            b == self.spec_has_type(ty),
    {
        self.type_of() == ty && self.is_canonical()
    }
}

impl ValueType {
    /// The word that names the type in a digest.
    pub open spec fn spec_tag(self) -> u64 {
        match self {
            ValueType::Field => 1,
            ValueType::U64 => 2,
            ValueType::Boolean => 3,
            ValueType::Address => 4,
        }
    }

    pub fn tag(&self) -> (t: u64)
        ensures
            t == self.spec_tag(),
    {
        match self {
            ValueType::Field => 1,
            ValueType::U64 => 2,
            ValueType::Boolean => 3,
            ValueType::Address => 4,
        }
    }
}

impl Value {
    /// The word that holds the value's content in a digest.
    pub open spec fn spec_bits(self) -> u64 {
        match self {
            Value::Field(x) => x,
            Value::U64(x) => x,
            Value::Boolean(b) => if b {
                1
            } else {
                0
            },
            Value::Address(x) => x,
        }
    }

    pub fn bits(&self) -> (w: u64)
        ensures
            w == self.spec_bits(),
    {
        match self {
            Value::Field(x) => *x,
            Value::U64(x) => *x,
            Value::Boolean(b) => if *b {
                1
            } else {
                0
            },
            Value::Address(x) => *x,
        }
    }
}

/// The additive identity of a type, for the types that have arithmetic.
pub open spec fn spec_zero(ty: ValueType) -> Option<Value> {
    match ty {
        ValueType::Field => Some(Value::Field(0)),
        ValueType::U64 => Some(Value::U64(0)),
        _ => None,
    }
}

pub fn zero(ty: ValueType) -> (z: Option<Value>)
    ensures
        z == spec_zero(ty),
{
    match ty {
        ValueType::Field => Some(Value::Field(0)),
        ValueType::U64 => Some(Value::U64(0)),
        _ => None,
    }
}

/// What an operation yields on two values.
///
/// Field arithmetic is taken modulo [`FIELD_MODULUS`] and never fails on canonical
/// elements. Integer arithmetic is exact: a result outside `u64` is a fault.
/// Equality is defined on two canonical values of one type. Everything else is a
/// type mismatch.
pub open spec fn spec_apply(op: Opcode, a: Value, b: Value) -> Result<Value, CommandError> {
    if !a.spec_is_canonical() || !b.spec_is_canonical() {
        Err(CommandError::TypeMismatch)
    } else {
        match (op, a, b) {
            (Opcode::Add, Value::Field(x), Value::Field(y)) => Ok(
                Value::Field(spec_field_add(x, y)),
            ),
            (Opcode::Sub, Value::Field(x), Value::Field(y)) => Ok(
                Value::Field(spec_field_sub(x, y)),
            ),
            (Opcode::Mul, Value::Field(x), Value::Field(y)) => Ok(
                Value::Field(spec_field_mul(x, y)),
            ),
            (Opcode::Add, Value::U64(x), Value::U64(y)) => if x + y <= u64::MAX {
                Ok(Value::U64((x + y) as u64))
            } else {
                Err(CommandError::Fault)
            },
            (Opcode::Sub, Value::U64(x), Value::U64(y)) => if y <= x {
                Ok(Value::U64((x - y) as u64))
            } else {
                Err(CommandError::Fault)
            },
            (Opcode::Mul, Value::U64(x), Value::U64(y)) => if x * y <= u64::MAX {
                Ok(Value::U64((x * y) as u64))
            } else {
                Err(CommandError::Fault)
            },
            (Opcode::IsEq, _, _) => if a.spec_type_of() == b.spec_type_of() {
                Ok(Value::Boolean(a == b))
            } else {
                Err(CommandError::TypeMismatch)
            },
            _ => Err(CommandError::TypeMismatch),
        }
    }
}

/// Applies an operation to two values.
pub fn apply(op: Opcode, a: Value, b: Value) -> (r: Result<Value, CommandError>)
    ensures
        r == spec_apply(op, a, b),
{
    if !a.is_canonical() || !b.is_canonical() {
        return Err(CommandError::TypeMismatch);
    }
    match (op, a, b) {
        (Opcode::Add, Value::Field(x), Value::Field(y)) => Ok(Value::Field(field_add(x, y))),
        (Opcode::Sub, Value::Field(x), Value::Field(y)) => Ok(Value::Field(field_sub(x, y))),
        (Opcode::Mul, Value::Field(x), Value::Field(y)) => Ok(Value::Field(field_mul(x, y))),
        (Opcode::Add, Value::U64(x), Value::U64(y)) => match x.checked_add(y) {
            Some(z) => Ok(Value::U64(z)),
            None => Err(CommandError::Fault),
        },
        (Opcode::Sub, Value::U64(x), Value::U64(y)) => match x.checked_sub(y) {
            Some(z) => Ok(Value::U64(z)),
            None => Err(CommandError::Fault),
        },
        (Opcode::Mul, Value::U64(x), Value::U64(y)) => match x.checked_mul(y) {
            Some(z) => Ok(Value::U64(z)),
            None => Err(CommandError::Fault),
        },
        (Opcode::IsEq, _, _) => if a.type_of() == b.type_of() {
            Ok(Value::Boolean(a == b))
        } else {
            Err(CommandError::TypeMismatch)
        },
        _ => Err(CommandError::TypeMismatch),
    }
}

} // verus!
