//! The errors a caller of the services sees: a code and a message.

use vstd::prelude::*;

verus! {

#[derive(Clone, Copy, Debug, PartialEq, Eq, Structural)]
pub enum ErrorCode {
    InvalidArgument,
    FailedPrecondition,
    NotFound,
    Unavailable,
    Internal,
}

#[derive(Debug, PartialEq, Eq)]
pub struct RpcError {
    pub code: ErrorCode,
    pub message: String,
}

pub struct RpcErrorView {
    pub code: ErrorCode,
    pub message: Seq<char>,
}

impl DeepView for RpcError {
    type V = RpcErrorView;

    open spec fn deep_view(&self) -> RpcErrorView {
        RpcErrorView { code: self.code, message: self.message@ }
    }
}

/// A request the caller has to change before it can be served.
pub open spec fn invalid(message: Seq<char>) -> RpcErrorView {
    RpcErrorView { code: ErrorCode::InvalidArgument, message }
}

impl RpcError {
    pub fn new(code: ErrorCode, message: &str) -> (error: RpcError)
        ensures
            error.deep_view() == (RpcErrorView { code, message: message@ }),
    {
        RpcError { code, message: message.to_owned() }
    }

    pub fn invalid_argument(message: String) -> (error: RpcError)
        ensures
            error.deep_view() == invalid(message@),
    {
        RpcError { code: ErrorCode::InvalidArgument, message }
    }
}

/// An invalid request is told as one, in the words given.
pub proof fn law_an_invalid_request_is_told_as_one(message: Seq<char>)
    ensures
        invalid(message).code == ErrorCode::InvalidArgument,
        invalid(message).message == message,
{
}

} // verus!
