//! Authorization: the signed requests of one top-level call.

use vstd::prelude::*;
use crate::call_stack::{Authorization, CallStack};
use crate::error::VmError;
use crate::execute::spec_run_authorize;
use crate::process::{Process, ProcessView};
use crate::request::{spec_sign, PrivateKey, Request, RequestView};
use crate::rng::Randomness;
use crate::stack::{Stack, StackView, MAX_CALLS};
use crate::types::{Identifier, Value};

verus! {

/// What an authorization yields, and the random words that are left after it.
pub struct Authorized {
    pub result: Result<Seq<RequestView>, VmError>,
    pub rng: Seq<u64>,
}

/// The meaning of the authorization of a call of a function of a stack.
///
/// The function must exist, and the inputs must be as many as its input types
/// and each of its type. The request of the call is signed with the next
/// random word. Then the call stack that holds this request, and the
/// authorization of this one request, is run in the mode `Authorize`: the
/// result is the authorization that the run has accumulated.
pub open spec fn spec_authorize(
    entry: StackView,
    process: ProcessView,
    key: PrivateKey,
    function_name: Identifier,
    inputs: Seq<Value>,
    rng: Seq<u64>,
) -> Authorized {
    match entry.function(function_name) {
        Err(e) => Authorized { result: Err(e), rng },
        Ok(function) => {
            let signed = spec_sign(
                key,
                entry.program.id,
                function_name,
                inputs,
                function.input_types,
                rng,
            );
            match signed.result {
                Err(e) => Authorized { result: Err(e), rng: signed.rng },
                Ok(request) => {
                    let run = spec_run_authorize(
                        entry,
                        process,
                        key,
                        MAX_CALLS as nat,
                        seq![request],
                        seq![request],
                        signed.rng,
                        None,
                    );
                    Authorized {
                        result: match run.result {
                            Ok((_, authorization)) => Ok(authorization),
                            Err(e) => Err(e),
                        },
                        rng: run.rng,
                    }
                },
            }
        },
    }
}

impl Stack {
    /// Authorizes a call of a function of this program on the given inputs.
    ///
    /// The result holds the request of the call and, after it, the requests of
    /// the calls that it makes, directly or not, each signed with
    /// `private_key` and one random word. Equal arguments and equal random
    /// words give equal authorizations. The key goes into no diagnostic.
    pub fn authorize(
        &self,
        process: &Process,
        private_key: &PrivateKey,
        function_name: Identifier,
        inputs: Vec<Value>,
        rng: &mut Randomness,
    ) -> (r: Result<Authorization, VmError>)
        ensures
            final(rng)@ == spec_authorize(
                self@,
                process@,
                *private_key,
                function_name,
                inputs@,
                old(rng)@,
            ).rng,
            match r {
                Ok(authorization) => spec_authorize(
                    self@,
                    process@,
                    *private_key,
                    function_name,
                    inputs@,
                    old(rng)@,
                ).result == Ok::<Seq<RequestView>, VmError>(authorization@),
                Err(e) => spec_authorize(
                    self@,
                    process@,
                    *private_key,
                    function_name,
                    inputs@,
                    old(rng)@,
                ).result == Err::<Seq<RequestView>, VmError>(e),
            },
    {
        let function = match self.get_function(function_name) {
            Ok(function) => function,
            Err(e) => return Err(e),
        };
        let request = match Request::sign(
            private_key,
            self.program_id(),
            function_name,
            inputs,
            &function.input_types,
            rng,
        ) {
            Ok(request) => request,
            Err(e) => return Err(e),
        };
        let call_stack = CallStack::authorize(request, *private_key);
        match self.execute_function(process, call_stack, rng) {
            Ok((_, CallStack::Authorize { authorization, .. })) => Ok(authorization),
            // A run keeps the mode of its call stack.
            Ok(_) => Err(VmError::NoPendingRequest),
            Err(e) => Err(e),
        }
    }
}

} // verus!
