//! The call stack: the context of one top-level invocation, in one of three
//! modes, carried through every call that the invocation makes.

use vstd::prelude::*;
use crate::error::VmError;
use crate::execution::{Execution, ExecutionView};
use crate::request::{PrivateKey, Request, RequestView};
use crate::types::Value;

verus! {

/// The requests of one top-level call: the request of the call itself, then
/// those of the calls that it makes, directly or not, in the order in which
/// they were signed.
#[derive(Debug, PartialEq, Eq)]
pub struct Authorization {
    pub requests: Vec<Request>,
}

impl View for Authorization {
    type V = Seq<RequestView>;

    open spec fn view(&self) -> Seq<RequestView> {
        self.requests@.map_values(|r: Request| r@)
    }
}

impl Authorization {
    /// An authorization of the given requests.
    pub fn new(requests: Vec<Request>) -> (authorization: Authorization)
        ensures
            authorization@ == requests@.map_values(|r: Request| r@),
    {
        Authorization { requests }
    }

    pub fn len(&self) -> (n: usize)
        ensures
            n == self@.len(),
    {
        self.requests.len()
    }

    /// Appends a request.
    pub fn push(&mut self, request: Request)
        ensures
            final(self)@ == old(self)@.push(request@),
    {
        self.requests.push(request);
        assert(self@ =~= old(self)@.push(request@));
    }
}

/// The outputs of one call of a function.
#[derive(Debug, PartialEq, Eq)]
pub struct Response {
    pub outputs: Vec<Value>,
}

impl View for Response {
    type V = Seq<Value>;

    open spec fn view(&self) -> Seq<Value> {
        self.outputs@
    }
}

/// The context of one top-level invocation. A call stack is made for one
/// invocation and never changes its mode; the calls that the invocation makes
/// add to what it has accumulated.
pub enum CallStack {
    /// Builds the requests of a call chain: each call is signed with the
    /// signer's key and appended to the authorization.
    Authorize { requests: Vec<Request>, private_key: PrivateKey, authorization: Authorization },
    /// Runs a call chain that was authorized: each call takes its request from
    /// the authorization, of which `taken` requests are taken already, and adds
    /// its transition to the execution.
    Execute {
        requests: Vec<Request>,
        authorization: Authorization,
        taken: usize,
        execution: Execution,
    },
    /// Runs a call chain that was authorized and holds each call against the
    /// transition that the execution records for it; `verified` transitions
    /// were held so already.
    Verify {
        requests: Vec<Request>,
        authorization: Authorization,
        taken: usize,
        execution: Execution,
        verified: usize,
    },
}

pub enum CallStackView {
    Authorize {
        requests: Seq<RequestView>,
        private_key: PrivateKey,
        authorization: Seq<RequestView>,
    },
    Execute {
        requests: Seq<RequestView>,
        authorization: Seq<RequestView>,
        taken: usize,
        execution: ExecutionView,
    },
    Verify {
        requests: Seq<RequestView>,
        authorization: Seq<RequestView>,
        taken: usize,
        execution: ExecutionView,
        verified: usize,
    },
}

impl View for CallStack {
    type V = CallStackView;

    open spec fn view(&self) -> CallStackView {
        match self {
            CallStack::Authorize { requests, private_key, authorization } => {
                CallStackView::Authorize {
                    requests: requests@.map_values(|r: Request| r@),
                    private_key: *private_key,
                    authorization: authorization@,
                }
            },
            CallStack::Execute { requests, authorization, taken, execution } => {
                CallStackView::Execute {
                    requests: requests@.map_values(|r: Request| r@),
                    authorization: authorization@,
                    taken: *taken,
                    execution: execution@,
                }
            },
            CallStack::Verify { requests, authorization, taken, execution, verified } => {
                CallStackView::Verify {
                    requests: requests@.map_values(|r: Request| r@),
                    authorization: authorization@,
                    taken: *taken,
                    execution: execution@,
                    verified: *verified,
                }
            },
        }
    }
}

impl CallStack {
    /// The call stack of an authorization: the request of the call is pending,
    /// and the authorization holds it and no other.
    pub fn authorize(request: Request, private_key: PrivateKey) -> (call_stack: CallStack)
        ensures
            call_stack@ == (CallStackView::Authorize {
                requests: seq![request@],
                private_key,
                authorization: seq![request@],
            }),
    {
        let mut first: Vec<Request> = Vec::new();
        first.push(request.copy());
        let mut requests: Vec<Request> = Vec::new();
        requests.push(request);
        let call_stack = CallStack::Authorize {
            requests,
            private_key,
            authorization: Authorization::new(first),
        };
        assert(call_stack@->Authorize_requests =~= seq![request@]);
        assert(call_stack@->Authorize_authorization =~= seq![request@]);
        call_stack
    }

    /// The call stack of the execution of an authorization: its first request
    /// is pending and taken, and no transition is recorded. An authorization
    /// without a request has nothing to execute.
    pub fn execute(authorization: Authorization) -> (r: Result<CallStack, VmError>)
        ensures
            match r {
                Ok(call_stack) => authorization@.len() > 0 && call_stack@
                    == (CallStackView::Execute {
                    requests: seq![authorization@[0]],
                    authorization: authorization@,
                    taken: 1,
                    execution: ExecutionView { transitions: Seq::empty() },
                }),
                Err(e) => authorization@.len() == 0 && e == VmError::NoPendingRequest,
            },
    {
        if authorization.requests.len() == 0 {
            return Err(VmError::NoPendingRequest);
        }
        let mut requests: Vec<Request> = Vec::new();
        requests.push(authorization.requests[0].copy());
        let call_stack = CallStack::Execute {
            requests,
            authorization,
            taken: 1,
            execution: Execution { transitions: Vec::new() },
        };
        assert(call_stack@->Execute_requests =~= seq![authorization@[0]]);
        assert(call_stack@->Execute_execution.transitions =~= Seq::empty());
        Ok(call_stack)
    }

    /// The call stack of the verification of an execution against an
    /// authorization: the first request of the authorization is pending and
    /// taken, and no transition is verified.
    pub fn verify(authorization: Authorization, execution: Execution) -> (r: Result<
        CallStack,
        VmError,
    >)
        ensures
            match r {
                Ok(call_stack) => authorization@.len() > 0 && call_stack@
                    == (CallStackView::Verify {
                    requests: seq![authorization@[0]],
                    authorization: authorization@,
                    taken: 1,
                    execution: execution@,
                    verified: 0,
                }),
                Err(e) => authorization@.len() == 0 && e == VmError::NoPendingRequest,
            },
    {
        if authorization.requests.len() == 0 {
            return Err(VmError::NoPendingRequest);
        }
        let mut requests: Vec<Request> = Vec::new();
        requests.push(authorization.requests[0].copy());
        let call_stack = CallStack::Verify {
            requests,
            authorization,
            taken: 1,
            execution,
            verified: 0,
        };
        assert(call_stack@->Verify_requests =~= seq![authorization@[0]]);
        Ok(call_stack)
    }
}

} // verus!
