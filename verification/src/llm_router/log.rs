//! The rows that every call leaves behind: its statistics, which stay, and its payload, which expires.

use vstd::prelude::*;

use crate::json::{Json, JsonView};
use crate::llm_router::audit::{bounded_model_name, Finish, Outcome, Tier, MODEL_NAME_BYTES};
use crate::llm_router::decisions::{DecisionAttempt, DecisionAttemptView};
use crate::llm_router::provider::{FinishReason, QualityTier};
use crate::llm_router::service::{Attempt, AttemptView};
use crate::text::{cat4, cut_to, law_a_cut_text_fits, utf8_len};

verus! {

/// What came of writing a call down: nothing more, or why it failed.
pub open spec fn writing_of(written: Result<(), String>) -> Result<(), Seq<char>> {
    match written {
        Ok(()) => Ok(()),
        Err(error) => Err(error@),
    }
}

/// What an operator is told where something could not be written down.
pub open spec fn complaint_of(what: Seq<char>, written: Result<(), Seq<char>>) -> Option<Seq<char>> {
    match written {
        Ok(()) => None,
        Err(error) => Some("could not record "@ + what + ": "@ + error),
    }
}

pub fn complaint(what: &str, written: Result<(), String>) -> (told: Option<String>)
    ensures
        told.deep_view() == complaint_of(what@, writing_of(written)),
{
    match written {
        Ok(()) => None,
        Err(error) => Some(cat4("could not record ", what, ": ", error.as_str())),
    }
}

/// The statistics of one completion.
#[derive(Debug, PartialEq, Eq)]
pub struct RequestRow {
    pub tier: Tier,
    pub model_used: String,
    pub used_backup: bool,
    pub tokens_in: i32,
    pub tokens_out: i32,
    pub latency_ms: i32,
    pub outcome: Outcome,
    pub finish_reason: Finish,
}

#[verifier::ext_equal]
pub struct RequestRowView {
    pub tier: Tier,
    pub model_used: Seq<char>,
    pub used_backup: bool,
    pub tokens_in: i32,
    pub tokens_out: i32,
    pub latency_ms: i32,
    pub outcome: Outcome,
    pub finish_reason: Finish,
}

impl DeepView for RequestRow {
    type V = RequestRowView;

    open spec fn deep_view(&self) -> RequestRowView {
        RequestRowView {
            tier: self.tier,
            model_used: self.model_used@,
            used_backup: self.used_backup,
            tokens_in: self.tokens_in,
            tokens_out: self.tokens_out,
            latency_ms: self.latency_ms,
            outcome: self.outcome,
            finish_reason: self.finish_reason,
        }
    }
}

/// The statistics of one decision.
#[derive(Debug, PartialEq, Eq)]
pub struct DecisionRow {
    pub model_used: String,
    pub questions: i16,
    pub tokens_in: i32,
    pub tokens_out: i32,
    pub latency_ms: i32,
    pub outcome: Outcome,
}

#[verifier::ext_equal]
pub struct DecisionRowView {
    pub model_used: Seq<char>,
    pub questions: i16,
    pub tokens_in: i32,
    pub tokens_out: i32,
    pub latency_ms: i32,
    pub outcome: Outcome,
}

impl DeepView for DecisionRow {
    type V = DecisionRowView;

    open spec fn deep_view(&self) -> DecisionRowView {
        DecisionRowView {
            model_used: self.model_used@,
            questions: self.questions,
            tokens_in: self.tokens_in,
            tokens_out: self.tokens_out,
            latency_ms: self.latency_ms,
            outcome: self.outcome,
        }
    }
}

/// What was sent to a provider and what came back.
#[derive(Debug, PartialEq, Eq)]
pub struct Payload {
    pub sent: Json,
    pub received: Json,
}

#[verifier::ext_equal]
pub struct PayloadView {
    pub sent: JsonView,
    pub received: JsonView,
}

impl DeepView for Payload {
    type V = PayloadView;

    open spec fn deep_view(&self) -> PayloadView {
        PayloadView { sent: self.sent.deep_view(), received: self.received.deep_view() }
    }
}

pub open spec fn kept_tier(tier: QualityTier) -> Tier {
    match tier {
        QualityTier::Unspecified => Tier::Unspecified,
        QualityTier::Low => Tier::Low,
        QualityTier::Medium => Tier::Medium,
        QualityTier::High => Tier::High,
    }
}

pub open spec fn kept_finish(reason: FinishReason) -> Finish {
    match reason {
        FinishReason::Unspecified => Finish::Unspecified,
        FinishReason::Stop => Finish::Stop,
        FinishReason::Length => Finish::Length,
        FinishReason::ContentFilter => Finish::ContentFilter,
        FinishReason::ToolCalls => Finish::ToolCalls,
    }
}

/// What is kept of a completion. A name too long for its column is cut rather than losing the row.
pub open spec fn request_row_of(attempt: AttemptView) -> (RequestRowView, PayloadView) {
    (
        RequestRowView {
            tier: kept_tier(attempt.tier),
            model_used: cut_to(attempt.model_used, MODEL_NAME_BYTES as nat),
            used_backup: attempt.used_backup,
            tokens_in: attempt.tokens_in,
            tokens_out: attempt.tokens_out,
            latency_ms: attempt.latency_ms,
            outcome: attempt.outcome,
            finish_reason: kept_finish(attempt.finish_reason),
        },
        PayloadView { sent: attempt.sent, received: attempt.received },
    )
}

/// The two rows of a completion. They are stored together or not at all.
pub fn record(attempt: Attempt) -> (rows: (RequestRow, Payload))
    ensures
        rows.deep_view() == request_row_of(attempt.deep_view()),
{
    (
        RequestRow {
            tier: Tier::from(attempt.tier),
            model_used: bounded_model_name(attempt.model_used),
            used_backup: attempt.used_backup,
            tokens_in: attempt.tokens_in,
            tokens_out: attempt.tokens_out,
            latency_ms: attempt.latency_ms,
            outcome: attempt.outcome,
            finish_reason: Finish::from(attempt.finish_reason),
        },
        Payload { sent: attempt.sent, received: attempt.received },
    )
}

/// What is kept of a decision.
pub open spec fn decision_row_of(attempt: DecisionAttemptView) -> (DecisionRowView, PayloadView) {
    (
        DecisionRowView {
            model_used: cut_to(attempt.model_used, MODEL_NAME_BYTES as nat),
            questions: attempt.questions,
            tokens_in: attempt.tokens_in,
            tokens_out: attempt.tokens_out,
            latency_ms: attempt.latency_ms,
            outcome: attempt.outcome,
        },
        PayloadView { sent: attempt.sent, received: attempt.received },
    )
}

/// The two rows of a decision. They are stored together or not at all.
pub fn record_decision(attempt: DecisionAttempt) -> (rows: (DecisionRow, Payload))
    ensures
        rows.deep_view() == decision_row_of(attempt.deep_view()),
{
    (
        DecisionRow {
            model_used: bounded_model_name(attempt.model_used),
            questions: attempt.questions,
            tokens_in: attempt.tokens_in,
            tokens_out: attempt.tokens_out,
            latency_ms: attempt.latency_ms,
            outcome: attempt.outcome,
        },
        Payload { sent: attempt.sent, received: attempt.received },
    )
}

/// However long a model's name is, the rows of its calls fit their columns, and everything else is kept as it was.
pub proof fn law_a_long_name_never_loses_the_row(attempt: AttemptView, decision: DecisionAttemptView)
    ensures
        utf8_len(request_row_of(attempt).0.model_used) <= MODEL_NAME_BYTES,
        utf8_len(decision_row_of(decision).0.model_used) <= MODEL_NAME_BYTES,
        utf8_len(attempt.model_used) <= MODEL_NAME_BYTES ==> request_row_of(attempt).0.model_used
            == attempt.model_used,
        request_row_of(attempt).1 == (PayloadView { sent: attempt.sent, received: attempt.received }),
        decision_row_of(decision).1 == (PayloadView { sent: decision.sent, received: decision.received }),
{
    law_a_cut_text_fits(attempt.model_used, MODEL_NAME_BYTES as nat);
    law_a_cut_text_fits(decision.model_used, MODEL_NAME_BYTES as nat);
}

/// A row keeps what the attempt says, each part in its own column.
pub proof fn law_a_row_keeps_what_the_attempt_says(attempt: AttemptView)
    ensures
        ({
            let (row, payload) = request_row_of(attempt);
            &&& row.used_backup == attempt.used_backup
            &&& row.tokens_in == attempt.tokens_in
            &&& row.tokens_out == attempt.tokens_out
            &&& row.latency_ms == attempt.latency_ms
            &&& row.outcome == attempt.outcome
            &&& row.model_used.is_prefix_of(attempt.model_used)
            &&& row.tier == Tier::Low <==> attempt.tier == QualityTier::Low
            &&& row.tier == Tier::Medium <==> attempt.tier == QualityTier::Medium
            &&& row.tier == Tier::High <==> attempt.tier == QualityTier::High
            &&& row.finish_reason == Finish::Stop <==> attempt.finish_reason == FinishReason::Stop
            &&& row.finish_reason == Finish::Length <==> attempt.finish_reason == FinishReason::Length
            &&& row.finish_reason == Finish::ContentFilter <==> attempt.finish_reason
                == FinishReason::ContentFilter
            &&& row.finish_reason == Finish::ToolCalls <==> attempt.finish_reason
                == FinishReason::ToolCalls
            &&& payload.sent == attempt.sent
            &&& payload.received == attempt.received
        }),
{
    law_a_cut_text_fits(attempt.model_used, MODEL_NAME_BYTES as nat);
}

/// So does the row of a decision.
pub proof fn law_a_decision_row_keeps_what_the_attempt_says(attempt: DecisionAttemptView)
    ensures
        ({
            let (row, payload) = decision_row_of(attempt);
            &&& row.questions == attempt.questions
            &&& row.tokens_in == attempt.tokens_in
            &&& row.tokens_out == attempt.tokens_out
            &&& row.latency_ms == attempt.latency_ms
            &&& row.outcome == attempt.outcome
            &&& row.model_used.is_prefix_of(attempt.model_used)
            &&& utf8_len(attempt.model_used) <= 128 ==> row.model_used == attempt.model_used
            &&& payload.sent == attempt.sent
            &&& payload.received == attempt.received
        }),
{
    law_a_cut_text_fits(attempt.model_used, MODEL_NAME_BYTES as nat);
}

/// An operator is told what could not be written down and why, and nothing where all went well.
pub proof fn law_a_complaint_says_what_and_why(what: Seq<char>, error: Seq<char>)
    ensures
        complaint_of(what, Ok(())) is None,
        complaint_of(what, Err(error)) == Some("could not record "@ + what + ": "@ + error),
{
}

/// The view of a row shows each of its parts under that part's own name.
pub proof fn law_the_view_of_a_request_row_is_its_own(request_row: RequestRow)
    ensures
        request_row.deep_view().tier == request_row.tier,
        request_row.deep_view().model_used == request_row.model_used@,
        request_row.deep_view().used_backup == request_row.used_backup,
        request_row.deep_view().tokens_in == request_row.tokens_in,
        request_row.deep_view().tokens_out == request_row.tokens_out,
        request_row.deep_view().latency_ms == request_row.latency_ms,
        request_row.deep_view().outcome == request_row.outcome,
        request_row.deep_view().finish_reason == request_row.finish_reason,
{
}

/// The view of a decision's row shows each of its parts under that part's own name.
pub proof fn law_the_view_of_a_decision_row_is_its_own(decision_row: DecisionRow)
    ensures
        decision_row.deep_view().model_used == decision_row.model_used@,
        decision_row.deep_view().questions == decision_row.questions,
        decision_row.deep_view().tokens_in == decision_row.tokens_in,
        decision_row.deep_view().tokens_out == decision_row.tokens_out,
        decision_row.deep_view().latency_ms == decision_row.latency_ms,
        decision_row.deep_view().outcome == decision_row.outcome,
{
}

/// The view of a payload shows each of its parts under that part's own name.
pub proof fn law_the_view_of_a_payload_is_its_own(payload: Payload)
    ensures
        payload.deep_view().sent == payload.sent.deep_view(),
        payload.deep_view().received == payload.received.deep_view(),
{
}

} // verus!
