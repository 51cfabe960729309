//! The authorization and finalization engine of a programmable ledger.
//!
//! A call of a function of a program is first *authorized*: [`stack::Stack`]
//! signs a request for the call and for every call that it makes in turn
//! ([`authorize`], [`execute`], [`call_stack`], [`request`]). The calls of an
//! execution are later *finalized*: [`process::Process`] applies the finalize
//! scope of each of them to the public key/value state ([`finalize`],
//! [`command`], [`registers`]), inside one atomic batch scope of the
//! [`store::FinalizeStore`], so that an execution or a deployment takes effect
//! as a whole or not at all.
//!
//! Every function states what it returns over a mathematical model of its
//! arguments, and [`laws`] collects what holds of the engine on every input.

pub mod authorize;
pub mod call_stack;
pub mod command;
pub mod constraint;
pub mod deployment;
pub mod error;
pub mod execute;
pub mod execution;
pub mod finalize;
pub mod laws;
pub mod names;
pub mod process;
pub mod program;
pub mod registers;
pub mod request;
pub mod rng;
pub mod stack;
pub mod store;
pub mod types;
