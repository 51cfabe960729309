//! Deployments: a program with its verifying keys.

use vstd::prelude::*;
use crate::program::{Program, ProgramView};
use crate::stack::VerifyingKey;
use crate::types::Identifier;

verus! {

/// The verifying key of one function of a deployed program.
#[derive(Clone, Copy, Debug, PartialEq, Eq, Structural)]
pub struct FunctionKey {
    pub function_name: Identifier,
    pub verifying_key: VerifyingKey,
}

/// A program submitted for registration, with its verifying keys.
#[derive(Debug, PartialEq, Eq)]
pub struct Deployment {
    pub program: Program,
    pub verifying_keys: Vec<FunctionKey>,
}

pub struct DeploymentView {
    pub program: ProgramView,
    pub verifying_keys: Seq<FunctionKey>,
}

impl View for Deployment {
    type V = DeploymentView;

    open spec fn view(&self) -> DeploymentView {
        DeploymentView { program: self.program@, verifying_keys: self.verifying_keys@ }
    }
}

} // verus!
