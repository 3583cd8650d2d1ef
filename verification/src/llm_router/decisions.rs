//! The System One class: one vendor, one model, and nothing to fall back to. Says what is recorded of a call
//! and hands a provider's refusal of the caller's own body back as the caller's.

use vstd::prelude::*;

use crate::collect::outcome;
use crate::json::{entry_views, group_json_views, lemma_holds, Json, JsonView};
use crate::llm_router::audit::Outcome;
use crate::llm_router::budget::{
    decision_of, published, published_budget, validated_decision, DecideRequest, DecideRequestView,
    DecisionBudget,
};
use crate::llm_router::decision::{
    Answer, AnswerView, Decision, DecisionView, ModelCard, ModelCardView, NotDecided, NotDecidedView,
    Verdict, VerdictView,
};
use crate::llm_router::log::{complaint, complaint_of, writing_of};
use crate::llm_router::provider::{CallError, CallErrorView};
use crate::rpc::{ErrorCode, RpcError, RpcErrorView};

verus! {

broadcast use group_json_views;

pub const NO_DECISION: &'static str =
    "the model did not decide; the decision log holds the provider's reply";

pub const NOT_CONFIGURED: &'static str = "structured decisions are not configured for this deployment";

pub const PROVIDER_REFUSED: &'static str =
    "the provider refused this decision; the decision log holds the provider's reply";

pub const UNLISTED: &'static str = "the provider did not list its models";

/// A listing makes no decision and writes no row, so there is no log entry to send an operator to.
pub const CANNOT_LIST: &'static str =
    "the models of this class could not be listed; this service's own logs hold why";

/// What is recorded of one decision.
#[derive(Debug, PartialEq, Eq)]
pub struct DecisionAttempt {
    pub model_used: String,
    pub questions: i16,
    pub tokens_in: i32,
    pub tokens_out: i32,
    pub latency_ms: i32,
    pub outcome: Outcome,
    pub sent: Json,
    pub received: Json,
}

pub struct DecisionAttemptView {
    pub model_used: Seq<char>,
    pub questions: i16,
    pub tokens_in: i32,
    pub tokens_out: i32,
    pub latency_ms: i32,
    pub outcome: Outcome,
    pub sent: JsonView,
    pub received: JsonView,
}

impl DeepView for DecisionAttempt {
    type V = DecisionAttemptView;

    open spec fn deep_view(&self) -> DecisionAttemptView {
        DecisionAttemptView {
            model_used: self.model_used@,
            questions: self.questions,
            tokens_in: self.tokens_in,
            tokens_out: self.tokens_out,
            latency_ms: self.latency_ms,
            outcome: self.outcome,
            sent: self.sent.deep_view(),
            received: self.received.deep_view(),
        }
    }
}

/// What a caller is told of a decision.
#[derive(Debug, PartialEq, Eq)]
pub struct DecideResponse {
    pub model_used: String,
    pub answers: Vec<Answer>,
    pub tokens_in: i32,
    pub tokens_out: i32,
}

#[verifier::ext_equal]
pub struct DecideResponseView {
    pub model_used: Seq<char>,
    pub answers: Seq<AnswerView>,
    pub tokens_in: i32,
    pub tokens_out: i32,
}

impl DeepView for DecideResponse {
    type V = DecideResponseView;

    open spec fn deep_view(&self) -> DecideResponseView {
        DecideResponseView {
            model_used: self.model_used@,
            answers: self.answers.deep_view(),
            tokens_in: self.tokens_in,
            tokens_out: self.tokens_out,
        }
    }
}

pub open spec fn decide_response_of(verdict: VerdictView) -> DecideResponseView {
    DecideResponseView {
        model_used: verdict.model_used,
        answers: verdict.answers,
        tokens_in: verdict.tokens_in,
        tokens_out: verdict.tokens_out,
    }
}

pub fn decide_response_from(verdict: Verdict) -> (response: DecideResponse)
    ensures
        response.deep_view() == decide_response_of(verdict.deep_view()),
{
    DecideResponse {
        model_used: verdict.model_used,
        answers: verdict.answers,
        tokens_in: verdict.tokens_in,
        tokens_out: verdict.tokens_out,
    }
}

/// A deployment either serves this class, with a model, or says plainly that it does not.
pub open spec fn configured_of(model: Option<Seq<char>>) -> Result<Seq<char>, RpcErrorView> {
    match model {
        Some(model) => Ok(model),
        None => Err(
            RpcErrorView { code: ErrorCode::FailedPrecondition, message: NOT_CONFIGURED@ },
        ),
    }
}

pub fn configured(model: Option<&str>) -> (served: Result<&str, RpcError>)
    ensures
        outcome(served) == configured_of(model.deep_view()),
{
    match model {
        Some(model) => Ok(model),
        None => Err(RpcError::new(ErrorCode::FailedPrecondition, NOT_CONFIGURED)),
    }
}

/// What is put to the provider: nothing where the class is not served or the request is over its budget.
pub open spec fn to_decide(model: Option<Seq<char>>, request: DecideRequestView) -> Result<
    DecisionView,
    RpcErrorView,
> {
    match configured_of(model) {
        Err(error) => Err(error),
        Ok(_) => decision_of(request),
    }
}

pub fn begin(model: Option<&str>, request: &DecideRequest) -> (checked: Result<Decision, RpcError>)
    ensures
        outcome(checked) == to_decide(model.deep_view(), request.deep_view()),
{
    if let Err(error) = configured(model) {
        return Err(error);
    }
    validated_decision(request)
}

/// The caller authors the state, the instructions, the options and the levels, so a refusal of the body is
/// handed back with the provider's own words. A key, a balance or a base URL is not the caller's request.
pub open spec fn reported_of(failed: CallErrorView) -> RpcErrorView {
    match failed {
        CallErrorView::WorthRetrying(_) => RpcErrorView {
            code: ErrorCode::Unavailable,
            message: NO_DECISION@,
        },
        CallErrorView::Refused(message) => RpcErrorView {
            code: ErrorCode::InvalidArgument,
            message,
        },
        CallErrorView::Final(_) => RpcErrorView {
            code: ErrorCode::Internal,
            message: PROVIDER_REFUSED@,
        },
    }
}

pub fn reported(failed: &CallError) -> (error: RpcError)
    ensures
        error.deep_view() == reported_of(failed.deep_view()),
{
    match failed {
        CallError::WorthRetrying(_) => RpcError::new(ErrorCode::Unavailable, NO_DECISION),
        CallError::Refused(message) => RpcError::new(
            ErrorCode::InvalidArgument,
            message.as_str(),
        ),
        CallError::Final(_) => RpcError::new(ErrorCode::Internal, PROVIDER_REFUSED),
    }
}

/// A failure as the log keeps it.
pub open spec fn error_json(message: Seq<char>) -> JsonView {
    JsonView::Object(seq![("error"@, JsonView::Text(message))])
}

pub fn logged_error(message: &str) -> (json: Json)
    ensures
        json.deep_view() == error_json(message@),
{
    let mut entries: Vec<(String, Json)> = Vec::new();
    entries.push(("error".to_owned(), Json::Text(message.to_owned())));
    assert(entry_views(entries@) =~= error_json(message@)->Object_0);
    Json::Object(entries)
}

/// Milliseconds as a column keeps them: the greatest number of 32 bits where there are more.
pub open spec fn latency_of(elapsed_ms: u64) -> i32 {
    if elapsed_ms <= i32::MAX {
        elapsed_ms as i32
    } else {
        i32::MAX
    }
}

pub fn latency(elapsed_ms: u64) -> (kept: i32)
    ensures
        kept == latency_of(elapsed_ms),
{
    if elapsed_ms <= i32::MAX as u64 {
        elapsed_ms as i32
    } else {
        i32::MAX
    }
}

pub open spec fn questions_count(questions: nat) -> i16 {
    if questions <= i16::MAX {
        questions as i16
    } else {
        i16::MAX
    }
}

/// What is recorded of a decision, whatever it came to.
pub open spec fn attempt_of(
    model: Seq<char>,
    questions: nat,
    elapsed_ms: u64,
    decided: Result<VerdictView, NotDecidedView>,
) -> DecisionAttemptView {
    match decided {
        Ok(verdict) => DecisionAttemptView {
            model_used: verdict.model_used,
            questions: questions_count(questions),
            tokens_in: verdict.tokens_in,
            tokens_out: verdict.tokens_out,
            latency_ms: latency_of(elapsed_ms),
            outcome: Outcome::Answered,
            sent: verdict.sent,
            received: verdict.reply,
        },
        Err(failed) => DecisionAttemptView {
            model_used: model,
            questions: questions_count(questions),
            tokens_in: 0,
            tokens_out: 0,
            latency_ms: latency_of(elapsed_ms),
            outcome: Outcome::Failed,
            sent: failed.sent,
            received: error_json(failed.error.message()),
        },
    }
}

/// What a caller is told of a decision.
pub open spec fn told_of(decided: Result<VerdictView, NotDecidedView>) -> Result<
    DecideResponseView,
    RpcErrorView,
> {
    match decided {
        Ok(verdict) => Ok(decide_response_of(verdict)),
        Err(failed) => Err(reported_of(failed.error)),
    }
}

/// What to record of a decision and what to tell the caller.
pub fn finish(
    model: &str,
    questions: usize,
    elapsed_ms: u64,
    decided: Result<Verdict, NotDecided>,
) -> (finished: (DecisionAttempt, Result<DecideResponse, RpcError>))
    ensures
        finished.0.deep_view() == attempt_of(model@, questions as nat, elapsed_ms, outcome(decided)),
        outcome(finished.1) == told_of(outcome(decided)),
{
    let questions: i16 = if questions <= i16::MAX as usize {
        questions as i16
    } else {
        i16::MAX
    };
    let latency_ms: i32 = latency(elapsed_ms);
    match decided {
        Ok(verdict) => {
            let attempt: DecisionAttempt = DecisionAttempt {
                model_used: verdict.model_used.clone(),
                questions,
                tokens_in: verdict.tokens_in,
                tokens_out: verdict.tokens_out,
                latency_ms,
                outcome: Outcome::Answered,
                sent: verdict.sent.copy(),
                received: verdict.reply.copy(),
            };
            (attempt, Ok(decide_response_from(verdict)))
        },
        Err(failed) => {
            let attempt: DecisionAttempt = DecisionAttempt {
                model_used: model.to_owned(),
                questions,
                tokens_in: 0,
                tokens_out: 0,
                latency_ms,
                outcome: Outcome::Failed,
                sent: failed.sent,
                received: logged_error(failed.error.message()),
            };
            (attempt, Err(reported(&failed.error)))
        },
    }
}

/// The models of this class and its budget, published together.
#[derive(Debug, PartialEq, Eq)]
pub struct DescribeModelsResponse {
    pub models: Vec<ModelCard>,
    pub budget: DecisionBudget,
}

#[verifier::ext_equal]
pub struct DescribeModelsResponseView {
    pub models: Seq<ModelCardView>,
    pub budget: DecisionBudget,
}

impl DeepView for DescribeModelsResponse {
    type V = DescribeModelsResponseView;

    open spec fn deep_view(&self) -> DescribeModelsResponseView {
        DescribeModelsResponseView { models: self.models.deep_view(), budget: self.budget }
    }
}

/// A listing carries nothing of the caller's, so no failure of it is ever the caller's to fix.
pub open spec fn described_of(listed: Result<Seq<ModelCardView>, CallErrorView>) -> Result<
    DescribeModelsResponseView,
    RpcErrorView,
> {
    match listed {
        Ok(models) => Ok(DescribeModelsResponseView { models, budget: published_budget() }),
        Err(CallErrorView::WorthRetrying(_)) => Err(
            RpcErrorView { code: ErrorCode::Unavailable, message: UNLISTED@ },
        ),
        Err(_) => Err(RpcErrorView { code: ErrorCode::Internal, message: CANNOT_LIST@ }),
    }
}

pub fn describe_models(listed: Result<Vec<ModelCard>, CallError>) -> (described: Result<
    DescribeModelsResponse,
    RpcError,
>)
    ensures
        outcome(described) == described_of(outcome(listed)),
{
    match listed {
        Ok(models) => Ok(DescribeModelsResponse { models, budget: published() }),
        Err(CallError::WorthRetrying(_)) => Err(RpcError::new(ErrorCode::Unavailable, UNLISTED)),
        Err(_) => Err(RpcError::new(ErrorCode::Internal, CANNOT_LIST)),
    }
}

/// The words of a provider reach a caller only where it refused the caller's own body; every other failure is
/// told in this service's words and kept, in the provider's, in the log.
pub proof fn law_only_a_refusal_is_handed_back(
    model: Seq<char>,
    questions: nat,
    elapsed_ms: u64,
    failed: NotDecidedView,
)
    ensures
        told_of(Err(failed))->Err_0.code == ErrorCode::InvalidArgument <==> failed.error is Refused,
        failed.error is Refused ==> told_of(Err(failed))->Err_0.message == failed.error.message(),
        failed.error is WorthRetrying ==> told_of(Err(failed))->Err_0.message == NO_DECISION@,
        failed.error is Final ==> told_of(Err(failed))->Err_0.message == PROVIDER_REFUSED@,
        attempt_of(model, questions, elapsed_ms, Err(failed)).received == error_json(
            failed.error.message(),
        ),
        attempt_of(model, questions, elapsed_ms, Err(failed)).outcome == Outcome::Failed,
        attempt_of(model, questions, elapsed_ms, Err(failed)).sent == failed.sent,
{
}

/// What a decision ends with: what its caller gets, and what an operator is told besides.
pub open spec fn replied_of(told: Result<DecideResponseView, RpcErrorView>, written: Result<(), Seq<char>>) -> (
    Result<DecideResponseView, RpcErrorView>,
    Option<Seq<char>>,
) {
    (told, complaint_of("a decision"@, written))
}

/// Ends a call: takes what the caller is to be told and what came of writing the attempt down, and gives the
/// caller's answer and what is left to tell an operator.
pub fn reply(told: Result<DecideResponse, RpcError>, written: Result<(), String>) -> (replied: (
    Result<DecideResponse, RpcError>,
    Option<String>,
))
    ensures
        replied.0 == told,
        (outcome(replied.0), replied.1.deep_view()) == replied_of(outcome(told), writing_of(written)),
{
    (told, complaint("a decision", written))
}

/// A failed write to the log neither turns an answer into an error nor changes the error that is reported: whatever
/// the decision came to, the caller gets the same, and only an operator learns of the log.
pub proof fn law_a_failed_record_changes_no_answer(
    decided: Result<VerdictView, NotDecidedView>,
    one: Result<(), Seq<char>>,
    other: Result<(), Seq<char>>,
)
    ensures
        replied_of(told_of(decided), one).0 == replied_of(told_of(decided), other).0,
        replied_of(told_of(decided), one).0 == told_of(decided),
        replied_of(told_of(decided), one).1 is None <==> one is Ok,
{
}

/// A caller is told what the verdict says, each part in its own field.
pub proof fn law_a_decision_is_told_as_it_was_made(verdict: VerdictView)
    ensures
        told_of(Ok(verdict)) matches Ok(told) && told.model_used == verdict.model_used && told.answers
            == verdict.answers && told.tokens_in == verdict.tokens_in && told.tokens_out
            == verdict.tokens_out,
{
}

/// What is recorded of a decision that was made is what the verdict says and how long it took; of one that was not, the
/// model that was asked, what was sent and, under "error", what went wrong.
pub proof fn law_a_decision_is_recorded_as_it_went(
    model: Seq<char>,
    questions: nat,
    elapsed_ms: u64,
    verdict: VerdictView,
    failed: NotDecidedView,
)
    ensures
        ({
            let kept = attempt_of(model, questions, elapsed_ms, Ok(verdict));
            &&& kept.model_used == verdict.model_used
            &&& kept.tokens_in == verdict.tokens_in
            &&& kept.tokens_out == verdict.tokens_out
            &&& kept.outcome == Outcome::Answered
            &&& kept.sent == verdict.sent
            &&& kept.received == verdict.reply
            &&& questions <= 32_767 ==> kept.questions == questions
            &&& questions > 32_767 ==> kept.questions == 32_767
            &&& elapsed_ms <= 2_147_483_647 ==> kept.latency_ms == elapsed_ms
            &&& elapsed_ms > 2_147_483_647 ==> kept.latency_ms == 2_147_483_647
        }),
        ({
            let kept = attempt_of(model, questions, elapsed_ms, Err(failed));
            &&& kept.model_used == model
            &&& kept.tokens_in == 0
            &&& kept.tokens_out == 0
            &&& kept.outcome == Outcome::Failed
            &&& kept.sent == failed.sent
            &&& failed.error matches CallErrorView::WorthRetrying(text) ==> kept.received.at("error"@)
                == JsonView::Text(text)
            &&& failed.error matches CallErrorView::Refused(text) ==> kept.received.at("error"@)
                == JsonView::Text(text)
            &&& failed.error matches CallErrorView::Final(text) ==> kept.received.at("error"@)
                == JsonView::Text(text)
            &&& questions <= 32_767 ==> kept.questions == questions
            &&& elapsed_ms <= 2_147_483_647 ==> kept.latency_ms == elapsed_ms
        }),
{
    lemma_holds(error_json(failed.error.message())->Object_0, 0);
}

/// What a caller is told of each failure: to try again, to change the request, in the provider's words, or neither.
pub proof fn law_each_failure_is_told_in_its_own_way(message: Seq<char>)
    ensures
        reported_of(CallErrorView::WorthRetrying(message)) == (RpcErrorView {
            code: ErrorCode::Unavailable,
            message: "the model did not decide; the decision log holds the provider's reply"@,
        }),
        reported_of(CallErrorView::Refused(message)) == (RpcErrorView {
            code: ErrorCode::InvalidArgument,
            message,
        }),
        reported_of(CallErrorView::Final(message)) == (RpcErrorView {
            code: ErrorCode::Internal,
            message: "the provider refused this decision; the decision log holds the provider's reply"@,
        }),
{
}

/// A deployment without a model of this class says so before it looks at a request, and with one it puts exactly what
/// was asked.
pub proof fn law_a_class_that_is_not_served_decides_nothing(model: Seq<char>, request: DecideRequestView)
    ensures
        to_decide(None, request) == Err::<DecisionView, RpcErrorView>(
            RpcErrorView {
                code: ErrorCode::FailedPrecondition,
                message: "structured decisions are not configured for this deployment"@,
            },
        ),
        to_decide(Some(model), request) == decision_of(request),
        configured_of(Some(model)) == Ok::<Seq<char>, RpcErrorView>(model),
        configured_of(None) is Err,
{
}

/// A listing is published with every model as it was listed and with the budget that requests are held to, and a
/// listing that failed is never the caller's to fix.
pub proof fn law_a_listing_is_published_with_the_budget(listed: Result<Seq<ModelCardView>, CallErrorView>)
    ensures
        listed matches Ok(models) ==> (described_of(listed) matches Ok(described) && described.models
            == models && described.budget == published_budget()),
        listed matches Err(error) ==> (described_of(listed) matches Err(told) && (told.code
            == ErrorCode::Unavailable <==> error is WorthRetrying) && (told.code == ErrorCode::Internal
            <==> error !is WorthRetrying) && told.message == (if error is WorthRetrying {
            "the provider did not list its models"@
        } else {
            "the models of this class could not be listed; this service's own logs hold why"@
        })),
{
}

/// An operator is told what could not be recorded, and why.
pub proof fn law_an_operator_learns_why_a_record_failed(
    told: Result<DecideResponseView, RpcErrorView>,
    error: Seq<char>,
)
    ensures
        replied_of(told, Err(error)).1 == Some("could not record a decision: "@ + error),
        replied_of(told, Ok(())).1 is None,
{
    reveal_strlit("could not record ");
    reveal_strlit("a decision");
    reveal_strlit(": ");
    reveal_strlit("could not record a decision: ");
    assert("could not record "@ + "a decision"@ + ": "@ =~= "could not record a decision: "@);
}

/// The view of a recorded decision shows each of its parts under that part's own name.
pub proof fn law_the_view_of_a_decision_attempt_is_its_own(decision_attempt: DecisionAttempt)
    ensures
        decision_attempt.deep_view().model_used == decision_attempt.model_used@,
        decision_attempt.deep_view().questions == decision_attempt.questions,
        decision_attempt.deep_view().tokens_in == decision_attempt.tokens_in,
        decision_attempt.deep_view().tokens_out == decision_attempt.tokens_out,
        decision_attempt.deep_view().latency_ms == decision_attempt.latency_ms,
        decision_attempt.deep_view().outcome == decision_attempt.outcome,
        decision_attempt.deep_view().sent == decision_attempt.sent.deep_view(),
        decision_attempt.deep_view().received == decision_attempt.received.deep_view(),
{
}

/// The view of a response shows each of its parts under that part's own name.
pub proof fn law_the_view_of_a_decide_response_is_its_own(decide_response: DecideResponse)
    ensures
        decide_response.deep_view().model_used == decide_response.model_used@,
        decide_response.deep_view().answers == decide_response.answers.deep_view(),
        decide_response.deep_view().tokens_in == decide_response.tokens_in,
        decide_response.deep_view().tokens_out == decide_response.tokens_out,
{
}

} // verus!
