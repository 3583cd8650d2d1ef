//! What can go wrong in the tool service, and what its callers see of it.

use vstd::prelude::*;

use crate::rpc::{ErrorCode, RpcError, RpcErrorView};
use crate::text::{cat2, dec_signed, decimal_signed};

verus! {

#[derive(Debug, PartialEq, Eq)]
pub enum ToolError {
    InvalidRequest(String),
    NotFound(i64),
    /// The review could not be made, through no fault of who submitted the tool.
    ReviewUnavailable(String),
    Db(String),
    Json(String),
}

#[verifier::ext_equal]
pub enum ToolErrorView {
    InvalidRequest(Seq<char>),
    NotFound(i64),
    ReviewUnavailable(Seq<char>),
    Db(Seq<char>),
    Json(Seq<char>),
}

impl DeepView for ToolError {
    type V = ToolErrorView;

    open spec fn deep_view(&self) -> ToolErrorView {
        match self {
            ToolError::InvalidRequest(reason) => ToolErrorView::InvalidRequest(reason@),
            ToolError::NotFound(id) => ToolErrorView::NotFound(*id),
            ToolError::ReviewUnavailable(reason) => ToolErrorView::ReviewUnavailable(reason@),
            ToolError::Db(reason) => ToolErrorView::Db(reason@),
            ToolError::Json(reason) => ToolErrorView::Json(reason@),
        }
    }
}

/// What a caller is told in place of what the storage said.
pub const INTERNAL_MESSAGE_WITHOUT_STORAGE_DETAIL: &'static str = "the request could not be completed";

pub open spec fn error_message(error: ToolErrorView) -> Seq<char> {
    match error {
        ToolErrorView::InvalidRequest(reason) => "invalid request: "@ + reason,
        ToolErrorView::NotFound(id) => "tool not found: "@ + dec_signed(id as int),
        ToolErrorView::ReviewUnavailable(reason) => reason,
        ToolErrorView::Db(reason) => "database error: "@ + reason,
        ToolErrorView::Json(reason) => "invalid json: "@ + reason,
    }
}

/// What a caller sees of an error.
pub open spec fn seen(error: ToolErrorView) -> RpcErrorView {
    match error {
        ToolErrorView::InvalidRequest(_) => RpcErrorView {
            code: ErrorCode::InvalidArgument,
            message: error_message(error),
        },
        ToolErrorView::NotFound(_) => RpcErrorView { code: ErrorCode::NotFound, message: error_message(error) },
        ToolErrorView::ReviewUnavailable(_) => RpcErrorView {
            code: ErrorCode::Unavailable,
            message: error_message(error),
        },
        ToolErrorView::Db(_) | ToolErrorView::Json(_) => RpcErrorView {
            code: ErrorCode::Internal,
            message: INTERNAL_MESSAGE_WITHOUT_STORAGE_DETAIL@,
        },
    }
}

impl ToolError {
    pub fn message(&self) -> (text: String)
        ensures
            text@ == error_message(self.deep_view()),
    {
        match self {
            ToolError::InvalidRequest(reason) => cat2("invalid request: ", reason.as_str()),
            ToolError::NotFound(id) => cat2("tool not found: ", decimal_signed(*id).as_str()),
            ToolError::ReviewUnavailable(reason) => reason.clone(),
            ToolError::Db(reason) => cat2("database error: ", reason.as_str()),
            ToolError::Json(reason) => cat2("invalid json: ", reason.as_str()),
        }
    }

    /// The error as a caller sees it.
    pub fn to_rpc(&self) -> (error: RpcError)
        ensures
            error.deep_view() == seen(self.deep_view()),
    {
        let message: String = self.message();
        match self {
            ToolError::InvalidRequest(_) => RpcError::invalid_argument(message),
            ToolError::NotFound(_) => RpcError::new(ErrorCode::NotFound, message.as_str()),
            ToolError::ReviewUnavailable(_) => RpcError::new(ErrorCode::Unavailable, message.as_str()),
            ToolError::Db(_) | ToolError::Json(_) => RpcError::new(
                ErrorCode::Internal,
                INTERNAL_MESSAGE_WITHOUT_STORAGE_DETAIL,
            ),
        }
    }
}

/// What the storage said never reaches a caller: two failures of the storage look the same, whatever was said.
pub proof fn law_storage_detail_never_reaches_the_caller(one: Seq<char>, other: Seq<char>)
    ensures
        seen(ToolErrorView::Db(one)) == seen(ToolErrorView::Db(other)),
        seen(ToolErrorView::Json(one)) == seen(ToolErrorView::Db(other)),
        seen(ToolErrorView::Db(one)).message == INTERNAL_MESSAGE_WITHOUT_STORAGE_DETAIL@,
        seen(ToolErrorView::Db(one)).code == ErrorCode::Internal,
{
}

/// Only a request that has to be changed is answered as one that has to be changed.
pub proof fn law_only_an_invalid_request_blames_the_caller(error: ToolErrorView)
    ensures
        seen(error).code == ErrorCode::InvalidArgument <==> error is InvalidRequest,
{
}

/// Each error is told in its own words: behind what it is, what was said of it.
pub proof fn law_each_error_is_told_in_its_own_words(reason: Seq<char>, id: i64)
    ensures
        seen(ToolErrorView::InvalidRequest(reason)) == (RpcErrorView {
            code: ErrorCode::InvalidArgument,
            message: "invalid request: "@ + reason,
        }),
        seen(ToolErrorView::NotFound(id)) == (RpcErrorView {
            code: ErrorCode::NotFound,
            message: "tool not found: "@ + dec_signed(id as int),
        }),
        seen(ToolErrorView::ReviewUnavailable(reason)) == (RpcErrorView {
            code: ErrorCode::Unavailable,
            message: reason,
        }),
        seen(ToolErrorView::Db(reason)) == (RpcErrorView {
            code: ErrorCode::Internal,
            message: "the request could not be completed"@,
        }),
        error_message(ToolErrorView::Db(reason)) == "database error: "@ + reason,
        error_message(ToolErrorView::Json(reason)) == "invalid json: "@ + reason,
{
}

} // verus!
