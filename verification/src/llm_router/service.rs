//! Checks each request against the contract of its tier, and says what is recorded of a call and what its
//! caller is told.

use vstd::prelude::*;

use crate::collect::outcome;
use crate::json::{lemma_holds, Json, JsonView};
use crate::llm_router::adapters::openai_compatible::{request_body, request_body_of};
use crate::llm_router::audit::Outcome;
use crate::llm_router::budget::total;
use crate::llm_router::decisions::{error_json, latency, latency_of, logged_error};
use crate::llm_router::log::{complaint, complaint_of, writing_of};
use crate::llm_router::provider::{
    CallError, CallErrorView, FinishReason, Prompt, PromptView, QualityTier, Sampling, SamplingView,
};
use crate::llm_router::router::{tier_name, tier_name_of, Answer, AnswerView, Failed, FailedView};
use crate::llm_router::wire::{
    known_tier, known_tier_of, response_from, response_of, CompleteResponse, CompleteResponseView, LimitTable,
    TierLimits, TierValue,
};
use crate::number::{double_between, double_is_between, law_a_double_is_held_to_its_bounds, MINUS_ZERO};
use crate::rpc::{invalid, ErrorCode, RpcError, RpcErrorView};
use crate::text::{
    byte_len, cat2, cat3, cat4, cat5, dec, dec_signed, decimal, decimal_signed, is_blank, trimmed, utf8_len,
};

verus! {

pub const NO_MODEL_ANSWERED: &'static str =
    "no model on this tier answered; the request log holds the provider's reply";

pub const PROVIDER_REFUSED: &'static str =
    "the provider refused this request; the request log holds the provider's reply";

pub const MAX_STOP_SEQUENCES: usize = 4;

pub const MAX_STOP_SEQUENCE_BYTES: usize = 1_024;

pub const MAX_TOTAL_STOP_BYTES: usize = 2_048;

pub const MAX_LOGIT_BIAS_ENTRIES: usize = 300;

pub const MAX_TOP_LOGPROBS: i32 = 20;

/// A completion as a caller asks for it.
#[derive(Debug, PartialEq, Eq)]
pub struct CompleteRequest {
    pub tier: TierValue,
    pub system_prompt: String,
    pub user_prompt: String,
    pub sampling: Sampling,
}

#[verifier::ext_equal]
pub struct CompleteRequestView {
    pub tier: TierValue,
    pub system_prompt: Seq<char>,
    pub user_prompt: Seq<char>,
    pub sampling: SamplingView,
}

impl DeepView for CompleteRequest {
    type V = CompleteRequestView;

    open spec fn deep_view(&self) -> CompleteRequestView {
        CompleteRequestView {
            tier: self.tier,
            system_prompt: self.system_prompt@,
            user_prompt: self.user_prompt@,
            sampling: self.sampling.deep_view(),
        }
    }
}

/// A setting that has to lie between two whole numbers, the lower given by its size below zero.
pub open spec fn number_fault(
    field: Seq<char>,
    value: Option<u64>,
    below: nat,
    above: nat,
) -> Option<RpcErrorView> {
    match value {
        Some(bits) => if double_between(bits, below, above) {
            None
        } else {
            Some(
                invalid(
                    field + " must be a finite number between "@ + dec_signed(-below) + " and "@ + dec(
                        above,
                    ),
                ),
            )
        },
        None => None,
    }
}

/// A check passed, or failed with the fault it found.
pub open spec fn finds(checked: Result<(), RpcError>, fault: Option<RpcErrorView>) -> bool {
    match checked {
        Ok(()) => fault is None,
        Err(error) => fault == Some(error.deep_view()),
    }
}

fn validate_number(field: &str, value: Option<u64>, below: u32, above: u32) -> (checked: Result<
    (),
    RpcError,
>)
    ensures
        finds(checked, number_fault(field@, value, below as nat, above as nat)),
{
    if let Some(bits) = value {
        if !double_is_between(bits, below, above) {
            return Err(
                RpcError::invalid_argument(
                    cat5(
                        field,
                        " must be a finite number between ",
                        decimal_signed(-(below as i64)).as_str(),
                        " and ",
                        decimal(above as u64).as_str(),
                    ),
                ),
            );
        }
    }
    Ok(())
}

pub open spec fn sequence_sizes(stop: Seq<Seq<char>>) -> Seq<nat> {
    stop.map_values(|sequence: Seq<char>| utf8_len(sequence))
}

/// The stop sequences: few enough, each short enough, and short enough together.
pub open spec fn stop_fault(stop: Seq<Seq<char>>) -> Option<RpcErrorView> {
    if stop.len() > MAX_STOP_SEQUENCES {
        Some(
            invalid("stop must hold at most "@ + dec(MAX_STOP_SEQUENCES as nat) + " sequences"@),
        )
    } else if exists|i: int| 0 <= i < stop.len() && utf8_len(#[trigger] stop[i]) > MAX_STOP_SEQUENCE_BYTES {
        Some(
            invalid(
                "each stop sequence must be at most "@ + dec(MAX_STOP_SEQUENCE_BYTES as nat) + " bytes"@,
            ),
        )
    } else if total(sequence_sizes(stop)) > MAX_TOTAL_STOP_BYTES {
        Some(
            invalid(
                "stop sequences must total at most "@ + dec(MAX_TOTAL_STOP_BYTES as nat) + " bytes"@,
            ),
        )
    } else {
        None
    }
}

fn validate_stop_sequences(stop: &Vec<String>) -> (checked: Result<(), RpcError>)
    ensures
        finds(checked, stop_fault(stop.deep_view())),
{
    if stop.len() > MAX_STOP_SEQUENCES {
        return Err(
            RpcError::invalid_argument(
                cat3(
                    "stop must hold at most ",
                    decimal(MAX_STOP_SEQUENCES as u64).as_str(),
                    " sequences",
                ),
            ),
        );
    }
    let ghost views = stop.deep_view();
    let ghost sizes = sequence_sizes(views);
    let mut bytes: usize = 0;
    assert(sizes.take(0) =~= seq![]);
    for i in 0..stop.len()
        invariant
            stop@.len() <= MAX_STOP_SEQUENCES,
            views == stop.deep_view(),
            sizes == sequence_sizes(views),
            forall|k: int| 0 <= k < i ==> utf8_len(#[trigger] views[k]) <= MAX_STOP_SEQUENCE_BYTES,
            bytes == total(sizes.take(i as int)),
            bytes <= i * 1024,
    {
        assert(views[i as int] == stop@[i as int]@);
        assert(sizes[i as int] == utf8_len(views[i as int]));
        assert(sizes.take(i as int + 1).drop_last() =~= sizes.take(i as int));
        let length: usize = byte_len(stop[i].as_str());
        if length > MAX_STOP_SEQUENCE_BYTES {
            return Err(
                RpcError::invalid_argument(
                    cat3(
                        "each stop sequence must be at most ",
                        decimal(MAX_STOP_SEQUENCE_BYTES as u64).as_str(),
                        " bytes",
                    ),
                ),
            );
        }
        bytes = bytes + length;
    }
    assert(sizes.take(sizes.len() as int) =~= sizes);
    if bytes > MAX_TOTAL_STOP_BYTES {
        return Err(
            RpcError::invalid_argument(
                cat3(
                    "stop sequences must total at most ",
                    decimal(MAX_TOTAL_STOP_BYTES as u64).as_str(),
                    " bytes",
                ),
            ),
        );
    }
    Ok(())
}

/// The biases of tokens: few enough, and each within its range.
pub open spec fn bias_fault(bias: Seq<(Seq<char>, u64)>) -> Option<RpcErrorView> {
    if bias.len() > MAX_LOGIT_BIAS_ENTRIES {
        Some(
            invalid(
                "logit_bias must hold at most "@ + dec(MAX_LOGIT_BIAS_ENTRIES as nat) + " entries"@,
            ),
        )
    } else if exists|i: int| 0 <= i < bias.len() && !double_between((#[trigger] bias[i]).1, 100, 100) {
        Some(
            invalid(
                "each logit_bias value"@ + " must be a finite number between "@ + dec_signed(-100int)
                    + " and "@ + dec(100),
            ),
        )
    } else {
        None
    }
}

fn validate_logit_bias(bias: &Vec<(String, u64)>) -> (checked: Result<(), RpcError>)
    ensures
        finds(checked, bias_fault(bias.deep_view())),
{
    if bias.len() > MAX_LOGIT_BIAS_ENTRIES {
        return Err(
            RpcError::invalid_argument(
                cat3(
                    "logit_bias must hold at most ",
                    decimal(MAX_LOGIT_BIAS_ENTRIES as u64).as_str(),
                    " entries",
                ),
            ),
        );
    }
    let ghost views = bias.deep_view();
    for i in 0..bias.len()
        invariant
            bias@.len() <= MAX_LOGIT_BIAS_ENTRIES,
            views == bias.deep_view(),
            forall|k: int| 0 <= k < i ==> double_between((#[trigger] views[k]).1, 100, 100),
    {
        assert(views[i as int].1 == bias@[i as int].1);
        validate_number("each logit_bias value", Some(bias[i].1), 100, 100)?;
    }
    Ok(())
}

/// The first of two faults.
pub open spec fn first_fault(first: Option<RpcErrorView>, then: Option<RpcErrorView>) -> Option<
    RpcErrorView,
> {
    if first is Some {
        first
    } else {
        then
    }
}

pub open spec fn logprobs_fault(top_logprobs: Option<i32>) -> Option<RpcErrorView> {
    match top_logprobs {
        Some(n) => if 0 <= n <= MAX_TOP_LOGPROBS {
            None
        } else {
            Some(
                invalid("top_logprobs must be between 0 and "@ + dec(MAX_TOP_LOGPROBS as nat)),
            )
        },
        None => None,
    }
}

/// The first setting that is out of its range, in the order they are checked.
pub open spec fn sampling_fault(sampling: SamplingView) -> Option<RpcErrorView> {
    first_fault(
        number_fault("temperature"@, sampling.temperature, 0, 2),
        first_fault(
            number_fault("top_p"@, sampling.top_p, 0, 1),
            first_fault(
                number_fault("frequency_penalty"@, sampling.frequency_penalty, 2, 2),
                first_fault(
                    number_fault("presence_penalty"@, sampling.presence_penalty, 2, 2),
                    first_fault(
                        stop_fault(sampling.stop),
                        first_fault(
                            bias_fault(sampling.logit_bias),
                            logprobs_fault(sampling.top_logprobs),
                        ),
                    ),
                ),
            ),
        ),
    )
}

pub fn validate_sampling(sampling: &Sampling) -> (checked: Result<(), RpcError>)
    ensures
        finds(checked, sampling_fault(sampling.deep_view())),
{
    validate_number("temperature", sampling.temperature, 0, 2)?;
    validate_number("top_p", sampling.top_p, 0, 1)?;
    validate_number("frequency_penalty", sampling.frequency_penalty, 2, 2)?;
    validate_number("presence_penalty", sampling.presence_penalty, 2, 2)?;
    validate_stop_sequences(&sampling.stop)?;
    validate_logit_bias(&sampling.logit_bias)?;
    if let Some(n) = sampling.top_logprobs {
        if n < 0 || n > MAX_TOP_LOGPROBS {
            return Err(
                RpcError::invalid_argument(
                    cat2(
                        "top_logprobs must be between 0 and ",
                        decimal(MAX_TOP_LOGPROBS as u64).as_str(),
                    ),
                ),
            );
        }
    }
    Ok(())
}

/// What is wrong with a request before its size is looked at: a tier that is not served, no prompt, or a setting
/// out of its range.
pub open spec fn request_fault(request: CompleteRequestView, served: bool) -> Option<RpcErrorView> {
    if !served {
        Some(
            invalid("tier "@ + tier_name_of(known_tier_of(request.tier)) + " is not served"@),
        )
    } else if trimmed(request.user_prompt).len() == 0 {
        Some(invalid("user_prompt is required"@))
    } else {
        sampling_fault(request.sampling)
    }
}

pub fn validate_request(request: &CompleteRequest, served: bool) -> (checked: Result<(), RpcError>)
    ensures
        finds(checked, request_fault(request.deep_view(), served)),
{
    if !served {
        return Err(
            RpcError::invalid_argument(
                cat3("tier ", tier_name(known_tier(request.tier)), " is not served"),
            ),
        );
    }
    if is_blank(request.user_prompt.as_str()) {
        return Err(RpcError::invalid_argument("user_prompt is required".to_owned()));
    }
    validate_sampling(&request.sampling)
}

/// The prompt a request comes to, given the settings fitted to the limits of its tier, or why they do not fit.
/// No settings at all stand for a tier that is not served.
pub open spec fn prompt_of(
    request: CompleteRequestView,
    fitted: Option<Result<SamplingView, Seq<char>>>,
) -> Result<PromptView, RpcErrorView> {
    match request_fault(request, fitted is Some) {
        Some(error) => Err(error),
        None => match fitted->Some_0 {
            Err(why) => Err(invalid(why)),
            Ok(sampling) => Ok(
                PromptView {
                    tier: known_tier_of(request.tier),
                    system: request.system_prompt,
                    user: request.user_prompt,
                    sampling,
                },
            ),
        },
    }
}

pub open spec fn fitted_of(fitted: Option<Result<Sampling, String>>) -> Option<
    Result<SamplingView, Seq<char>>,
> {
    match fitted {
        Some(result) => Some(outcome(result)),
        None => None,
    }
}

pub fn begin(request: CompleteRequest, fitted: Option<Result<Sampling, String>>) -> (prompt: Result<
    Prompt,
    RpcError,
>)
    ensures
        outcome(prompt) == prompt_of(request.deep_view(), fitted_of(fitted)),
{
    if let Err(error) = validate_request(&request, fitted.is_some()) {
        return Err(error);
    }
    match fitted {
        Some(Ok(sampling)) => Ok(
            Prompt {
                tier: known_tier(request.tier),
                system: request.system_prompt,
                user: request.user_prompt,
                sampling,
            },
        ),
        Some(Err(why)) => Err(RpcError::invalid_argument(why)),
        None => Err(RpcError::invalid_argument(String::new())),
    }
}

/// The settings of a call fitted to what its tier lets a model write: a caller that names no limit gets the tier's,
/// and one that names more is refused. Only the settings are weighed: how many tokens the prompts come to is not
/// counted, so the limit on what a model may read is not enforced here.
pub open spec fn fit_of(sampling: SamplingView, limits: TierLimits) -> Result<SamplingView, Seq<char>> {
    match sampling.max_tokens {
        None => Ok(SamplingView { max_tokens: Some(limits.max_output_tokens), ..sampling }),
        Some(asked) => if asked > limits.max_output_tokens {
            Err(
                "max_tokens is "@ + dec_signed(asked as int) + ", the maximum of this tier is "@ + dec_signed(
                    limits.max_output_tokens as int,
                ),
            )
        } else {
            Ok(sampling)
        },
    }
}

/// Fits the settings of a call to what its tier lets a model write. The prompts are not weighed: whoever can count
/// their tokens holds them to the tier's limit on input, and hands the outcome to [`begin`].
pub fn fit_to_limits(sampling: Sampling, limits: TierLimits) -> (fitted: Result<Sampling, String>)
    ensures
        outcome(fitted) == fit_of(sampling.deep_view(), limits),
{
    match sampling.max_tokens {
        None => Ok(Sampling { max_tokens: Some(limits.max_output_tokens), ..sampling }),
        Some(asked) => if asked > limits.max_output_tokens {
            Err(
                cat4(
                    "max_tokens is ",
                    decimal_signed(asked as i64).as_str(),
                    ", the maximum of this tier is ",
                    decimal_signed(limits.max_output_tokens as i64).as_str(),
                ),
            )
        } else {
            Ok(sampling)
        },
    }
}

/// The settings of a request fitted to the limits of its tier, where the tier is served.
pub open spec fn fitted_within(request: CompleteRequestView, table: LimitTable) -> Option<
    Result<SamplingView, Seq<char>>,
> {
    match table.spec_limits(known_tier_of(request.tier)) {
        Some(limits) => Some(fit_of(request.sampling, limits)),
        None => None,
    }
}

/// The prompt a request comes to under the limits of the tiers. Only its settings are held to them: the two prompts go
/// through at any length, as `fit_to_limits` does not weigh them.
pub fn begin_within(request: CompleteRequest, table: &LimitTable) -> (prompt: Result<Prompt, RpcError>)
    ensures
        outcome(prompt) == prompt_of(
            request.deep_view(),
            fitted_within(request.deep_view(), *table),
        ),
{
    let limits: Option<TierLimits> = table.limits(known_tier(request.tier));
    if let Err(error) = validate_request(&request, limits.is_some()) {
        return Err(error);
    }
    let fitted: Option<Result<Sampling, String>> = match limits {
        Some(limits) => Some(fit_to_limits(request.sampling, limits)),
        None => None,
    };
    match fitted {
        Some(Ok(sampling)) => Ok(
            Prompt {
                tier: known_tier(request.tier),
                system: request.system_prompt,
                user: request.user_prompt,
                sampling,
            },
        ),
        Some(Err(why)) => Err(RpcError::invalid_argument(why)),
        None => Err(RpcError::invalid_argument(String::new())),
    }
}

/// A prompt is put to a model only on a tier that is served, and never asks for more output than the tier allows.
pub proof fn law_a_prompt_keeps_to_its_tier(request: CompleteRequestView, table: LimitTable)
    requires
        prompt_of(request, fitted_within(request, table)) is Ok,
    ensures
        table.spec_limits(known_tier_of(request.tier)) is Some,
        ({
            let prompt = prompt_of(request, fitted_within(request, table))->Ok_0;
            let limits = table.spec_limits(known_tier_of(request.tier))->Some_0;
            &&& prompt.tier == known_tier_of(request.tier)
            &&& prompt.sampling.max_tokens is Some
            &&& prompt.sampling.max_tokens->Some_0 <= limits.max_output_tokens
            &&& request.sampling.max_tokens is Some ==> prompt.sampling == request.sampling
            &&& request.sampling.max_tokens is None ==> prompt.sampling == (SamplingView {
                max_tokens: Some(limits.max_output_tokens),
                ..request.sampling
            })
        }),
{
}

/// What is recorded of one completion.
#[derive(Debug, PartialEq, Eq)]
pub struct Attempt {
    pub tier: QualityTier,
    pub model_used: String,
    pub used_backup: bool,
    pub tokens_in: i32,
    pub tokens_out: i32,
    pub latency_ms: i32,
    pub outcome: Outcome,
    pub finish_reason: FinishReason,
    pub sent: Json,
    pub received: Json,
}

pub struct AttemptView {
    pub tier: QualityTier,
    pub model_used: Seq<char>,
    pub used_backup: bool,
    pub tokens_in: i32,
    pub tokens_out: i32,
    pub latency_ms: i32,
    pub outcome: Outcome,
    pub finish_reason: FinishReason,
    pub sent: JsonView,
    pub received: JsonView,
}

impl DeepView for Attempt {
    type V = AttemptView;

    open spec fn deep_view(&self) -> AttemptView {
        AttemptView {
            tier: self.tier,
            model_used: self.model_used@,
            used_backup: self.used_backup,
            tokens_in: self.tokens_in,
            tokens_out: self.tokens_out,
            latency_ms: self.latency_ms,
            outcome: self.outcome,
            finish_reason: self.finish_reason,
            sent: self.sent.deep_view(),
            received: self.received.deep_view(),
        }
    }
}

/// What is recorded of a call, whatever it came to: what was sent to the model that was asked last, and what
/// came back.
pub open spec fn attempt_of(
    prompt: PromptView,
    reasoning: bool,
    routing: Option<JsonView>,
    elapsed_ms: u64,
    routed: Result<AnswerView, FailedView>,
) -> AttemptView {
    match routed {
        Ok(answer) => AttemptView {
            tier: prompt.tier,
            model_used: answer.model_used,
            used_backup: answer.used_backup,
            tokens_in: answer.completion.tokens_in,
            tokens_out: answer.completion.tokens_out,
            latency_ms: latency_of(elapsed_ms),
            outcome: Outcome::Answered,
            finish_reason: answer.completion.finish_reason,
            sent: request_body_of(answer.model_used, prompt, reasoning, routing),
            received: answer.completion.reply,
        },
        Err(failed) => AttemptView {
            tier: prompt.tier,
            model_used: failed.model_used,
            used_backup: failed.used_backup,
            tokens_in: 0,
            tokens_out: 0,
            latency_ms: latency_of(elapsed_ms),
            outcome: Outcome::Failed,
            finish_reason: FinishReason::Unspecified,
            sent: request_body_of(failed.model_used, prompt, reasoning, routing),
            received: error_json(failed.error.message()),
        },
    }
}

/// What a caller is told of a failure: never the provider's own words, which stay in the log.
pub open spec fn failure_told(error: CallErrorView) -> RpcErrorView {
    match error {
        CallErrorView::WorthRetrying(_) => RpcErrorView {
            code: ErrorCode::Unavailable,
            message: NO_MODEL_ANSWERED@,
        },
        _ => RpcErrorView { code: ErrorCode::Internal, message: PROVIDER_REFUSED@ },
    }
}

pub open spec fn told_of(routed: Result<AnswerView, FailedView>) -> Result<
    CompleteResponseView,
    RpcErrorView,
> {
    match routed {
        Ok(answer) => Ok(response_of(answer)),
        Err(failed) => Err(failure_told(failed.error)),
    }
}

/// What to record of a call and what to tell the caller.
pub fn finish(
    prompt: &Prompt,
    reasoning: bool,
    routing: Option<&Json>,
    elapsed_ms: u64,
    routed: Result<Answer, Failed>,
) -> (finished: (Attempt, Result<CompleteResponse, RpcError>))
    ensures
        finished.0.deep_view() == attempt_of(
            prompt.deep_view(),
            reasoning,
            routing.deep_view(),
            elapsed_ms,
            outcome(routed),
        ),
        outcome(finished.1) == told_of(outcome(routed)),
{
    let latency_ms: i32 = latency(elapsed_ms);
    match routed {
        Ok(answer) => {
            let attempt: Attempt = Attempt {
                tier: prompt.tier,
                model_used: answer.model_used.clone(),
                used_backup: answer.used_backup,
                tokens_in: answer.completion.tokens_in,
                tokens_out: answer.completion.tokens_out,
                latency_ms,
                outcome: Outcome::Answered,
                finish_reason: answer.completion.finish_reason,
                sent: request_body(answer.model_used.as_str(), prompt, reasoning, routing),
                received: answer.completion.reply.copy(),
            };
            (attempt, Ok(response_from(answer)))
        },
        Err(failed) => {
            let attempt: Attempt = Attempt {
                tier: prompt.tier,
                model_used: failed.model_used.clone(),
                used_backup: failed.used_backup,
                tokens_in: 0,
                tokens_out: 0,
                latency_ms,
                outcome: Outcome::Failed,
                finish_reason: FinishReason::Unspecified,
                sent: request_body(failed.model_used.as_str(), prompt, reasoning, routing),
                received: logged_error(failed.error.message()),
            };
            let told: RpcError = match &failed.error {
                CallError::WorthRetrying(_) => RpcError::new(
                    ErrorCode::Unavailable,
                    NO_MODEL_ANSWERED,
                ),
                _ => RpcError::new(ErrorCode::Internal, PROVIDER_REFUSED),
            };
            (attempt, Err(told))
        },
    }
}

/// The provider's own words never reach the caller of a completion: two failures of the same kind are told the
/// same way, whatever was said, and what was said is in the log.
pub proof fn law_the_providers_words_stay_in_the_log(
    prompt: PromptView,
    reasoning: bool,
    routing: Option<JsonView>,
    elapsed_ms: u64,
    one: FailedView,
    other: FailedView,
)
    requires
        one.error is WorthRetrying <==> other.error is WorthRetrying,
    ensures
        told_of(Err(one)) == told_of(Err(other)),
        attempt_of(prompt, reasoning, routing, elapsed_ms, Err(one)).received == error_json(
            one.error.message(),
        ),
{
}

/// What a call ends with: what its caller gets, and what an operator is told besides.
pub open spec fn replied_of(told: Result<CompleteResponseView, RpcErrorView>, written: Result<(), Seq<char>>) -> (
    Result<CompleteResponseView, RpcErrorView>,
    Option<Seq<char>>,
) {
    (told, complaint_of("an llm call"@, written))
}

/// Ends a call: takes what the caller is to be told and what came of writing the attempt down, and gives the
/// caller's answer and what is left to tell an operator.
pub fn reply(told: Result<CompleteResponse, RpcError>, written: Result<(), String>) -> (replied: (
    Result<CompleteResponse, RpcError>,
    Option<String>,
))
    ensures
        replied.0 == told,
        (outcome(replied.0), replied.1.deep_view()) == replied_of(outcome(told), writing_of(written)),
{
    (told, complaint("an llm call", written))
}

/// A failed write to the log neither turns an answer into an error nor changes the error that is reported: whatever
/// the call came to, the caller gets the same, and only an operator learns of the log.
pub proof fn law_a_failed_record_changes_no_answer(
    routed: Result<AnswerView, FailedView>,
    one: Result<(), Seq<char>>,
    other: Result<(), Seq<char>>,
)
    ensures
        replied_of(told_of(routed), one).0 == replied_of(told_of(routed), other).0,
        replied_of(told_of(routed), one).0 == told_of(routed),
        replied_of(told_of(routed), one).1 is None <==> one is Ok,
{
}

/// Every setting is held to its own range, and a request whose settings all keep to theirs is not turned away for them.
pub proof fn law_each_setting_is_held_to_its_own_range(set: SamplingView)
    ensures
        sampling_fault(set) is None <==> {
            &&& set.temperature matches Some(bits) ==> bits <= 0x4000_0000_0000_0000 || bits == MINUS_ZERO
            &&& set.top_p matches Some(bits) ==> bits <= 0x3ff0_0000_0000_0000 || bits == MINUS_ZERO
            &&& set.frequency_penalty matches Some(bits) ==> bits % MINUS_ZERO <= 0x4000_0000_0000_0000
            &&& set.presence_penalty matches Some(bits) ==> bits % MINUS_ZERO <= 0x4000_0000_0000_0000
            &&& set.stop.len() <= 4
            &&& forall|i: int| 0 <= i < set.stop.len() ==> utf8_len(#[trigger] set.stop[i]) <= 1_024
            &&& total(set.stop.map_values(|text: Seq<char>| utf8_len(text))) <= 2_048
            &&& set.logit_bias.len() <= 300
            &&& forall|i: int|
                0 <= i < set.logit_bias.len() ==> (#[trigger] set.logit_bias[i]).1 % MINUS_ZERO
                    <= 0x4059_0000_0000_0000
            &&& set.top_logprobs matches Some(n) ==> 0 <= n <= 20
        },
        sampling_fault(set) matches Some(error) ==> error.code == ErrorCode::InvalidArgument,
{
    if let Some(bits) = set.temperature {
        law_a_double_is_held_to_its_bounds(bits);
    }
    if let Some(bits) = set.top_p {
        law_a_double_is_held_to_its_bounds(bits);
    }
    if let Some(bits) = set.frequency_penalty {
        law_a_double_is_held_to_its_bounds(bits);
    }
    if let Some(bits) = set.presence_penalty {
        law_a_double_is_held_to_its_bounds(bits);
    }
    assert forall|i: int| 0 <= i < set.logit_bias.len() implies (double_between(
        (#[trigger] set.logit_bias[i]).1,
        100,
        100,
    ) <==> set.logit_bias[i].1 % MINUS_ZERO <= 0x4059_0000_0000_0000) by {
        law_a_double_is_held_to_its_bounds(set.logit_bias[i].1);
    }
    assert(sequence_sizes(set.stop) =~= set.stop.map_values(|text: Seq<char>| utf8_len(text)));
}

/// The first setting out of its range is the one that is named.
pub proof fn law_the_first_setting_out_of_range_is_named(set: SamplingView)
    ensures
        set.temperature matches Some(bits) ==> (!double_between(bits, 0, 2) ==> sampling_fault(set) == Some(
            invalid("temperature"@ + " must be a finite number between "@ + dec_signed(0) + " and "@ + dec(2)),
        )),
        set.temperature is None ==> (set.top_p matches Some(bits) ==> (!double_between(bits, 0, 1)
            ==> sampling_fault(set) == Some(
            invalid("top_p"@ + " must be a finite number between "@ + dec_signed(0) + " and "@ + dec(1)),
        ))),
        set.temperature is None && set.top_p is None ==> (set.frequency_penalty matches Some(bits) ==> (
        !double_between(bits, 2, 2) ==> sampling_fault(set) == Some(
            invalid(
                "frequency_penalty"@ + " must be a finite number between "@ + dec_signed(-2) + " and "@ + dec(
                    2,
                ),
            ),
        ))),
        set.temperature is None && set.top_p is None && set.frequency_penalty is None ==> (
        set.presence_penalty matches Some(bits) ==> (!double_between(bits, 2, 2) ==> sampling_fault(set)
            == Some(
            invalid(
                "presence_penalty"@ + " must be a finite number between "@ + dec_signed(-2) + " and "@ + dec(
                    2,
                ),
            ),
        ))),
{
}

/// A prompt is the request: its own texts, each in its own place, on its own tier, with the settings that were fitted.
pub proof fn law_a_prompt_is_the_request(
    request: CompleteRequestView,
    fitted: Option<Result<SamplingView, Seq<char>>>,
)
    ensures
        prompt_of(request, fitted) matches Ok(prompt) ==> {
            &&& prompt.system == request.system_prompt
            &&& prompt.user == request.user_prompt
            &&& prompt.tier == known_tier_of(request.tier)
            &&& fitted == Some(Ok::<SamplingView, Seq<char>>(prompt.sampling))
            &&& trimmed(request.user_prompt).len() > 0
            &&& sampling_fault(request.sampling) is None
        },
        prompt_of(request, fitted) matches Err(error) ==> error.code == ErrorCode::InvalidArgument,
        fitted is None ==> prompt_of(request, fitted) is Err,
        trimmed(request.user_prompt).len() > 0 && sampling_fault(request.sampling) is None ==> (
        fitted matches Some(Ok(_)) ==> prompt_of(request, fitted) is Ok),
        trimmed(request.user_prompt).len() > 0 && sampling_fault(request.sampling) is None ==> (
        fitted matches Some(Err(why)) ==> prompt_of(request, fitted) == Err::<PromptView, RpcErrorView>(
            invalid(why),
        )),
{
}

/// Settings are changed only where the caller names no limit on the output, and then only that; a limit within the
/// tier's is kept, and one beyond it refused.
pub proof fn law_only_a_missing_limit_is_filled_in(set: SamplingView, limits: TierLimits)
    ensures
        fit_of(set, limits) matches Ok(fitted) ==> {
            &&& fitted.temperature == set.temperature
            &&& fitted.top_p == set.top_p
            &&& fitted.stop == set.stop
            &&& fitted.frequency_penalty == set.frequency_penalty
            &&& fitted.presence_penalty == set.presence_penalty
            &&& fitted.seed == set.seed
            &&& fitted.logit_bias == set.logit_bias
            &&& fitted.logprobs == set.logprobs
            &&& fitted.top_logprobs == set.top_logprobs
            &&& fitted.response_format == set.response_format
            &&& set.max_tokens is Some ==> fitted.max_tokens == set.max_tokens
            &&& set.max_tokens is None ==> fitted.max_tokens == Some(limits.max_output_tokens)
        },
        fit_of(set, limits) is Err <==> (set.max_tokens matches Some(n) && n > limits.max_output_tokens),
{
}

/// What is recorded of a call is how it went: what was sent to the model asked last, what came back, and every part of
/// the answer in its own field.
pub proof fn law_a_call_is_recorded_as_it_went(
    prompt: PromptView,
    reasoning: bool,
    routing: Option<JsonView>,
    elapsed_ms: u64,
    answer: AnswerView,
    failed: FailedView,
)
    ensures
        ({
            let kept = attempt_of(prompt, reasoning, routing, elapsed_ms, Ok(answer));
            &&& kept.tier == prompt.tier
            &&& kept.model_used == answer.model_used
            &&& kept.used_backup == answer.used_backup
            &&& kept.tokens_in == answer.completion.tokens_in
            &&& kept.tokens_out == answer.completion.tokens_out
            &&& kept.finish_reason == answer.completion.finish_reason
            &&& kept.outcome == Outcome::Answered
            &&& kept.received == answer.completion.reply
            &&& kept.sent == request_body_of(answer.model_used, prompt, reasoning, routing)
            &&& elapsed_ms <= 2_147_483_647 ==> kept.latency_ms == elapsed_ms
            &&& elapsed_ms > 2_147_483_647 ==> kept.latency_ms == 2_147_483_647
        }),
        ({
            let kept = attempt_of(prompt, reasoning, routing, elapsed_ms, Err(failed));
            &&& kept.tier == prompt.tier
            &&& kept.model_used == failed.model_used
            &&& kept.used_backup == failed.used_backup
            &&& kept.tokens_in == 0
            &&& kept.tokens_out == 0
            &&& kept.finish_reason == FinishReason::Unspecified
            &&& kept.outcome == Outcome::Failed
            &&& kept.sent == request_body_of(failed.model_used, prompt, reasoning, routing)
            &&& kept.received.at("error"@) == JsonView::Text(failed.error.message())
            &&& elapsed_ms <= 2_147_483_647 ==> kept.latency_ms == elapsed_ms
        }),
{
    lemma_holds(error_json(failed.error.message())->Object_0, 0);
}

/// What a caller is told: the answer, part by part, or one of two sentences, by whether another try may help.
pub proof fn law_a_caller_is_told_what_came_of_the_call(answer: AnswerView, failed: FailedView)
    ensures
        told_of(Ok(answer)) matches Ok(told) && told.content == answer.completion.content && told.model_used
            == answer.model_used && told.tokens_in == answer.completion.tokens_in && told.tokens_out
            == answer.completion.tokens_out && told.used_backup == answer.used_backup
            && told.finish_reason == answer.completion.finish_reason,
        failed.error is WorthRetrying ==> told_of(Err(failed)) == Err::<CompleteResponseView, RpcErrorView>(
            RpcErrorView {
                code: ErrorCode::Unavailable,
                message: "no model on this tier answered; the request log holds the provider's reply"@,
            },
        ),
        failed.error !is WorthRetrying ==> told_of(Err(failed)) == Err::<CompleteResponseView, RpcErrorView>(
            RpcErrorView {
                code: ErrorCode::Internal,
                message: "the provider refused this request; the request log holds the provider's reply"@,
            },
        ),
{
}

/// An operator is told what could not be recorded, and why.
pub proof fn law_an_operator_learns_why_a_record_failed(
    told: Result<CompleteResponseView, RpcErrorView>,
    error: Seq<char>,
)
    ensures
        replied_of(told, Err(error)).1 == Some("could not record an llm call: "@ + error),
        replied_of(told, Ok(())).1 is None,
{
    reveal_strlit("could not record ");
    reveal_strlit("an llm call");
    reveal_strlit(": ");
    reveal_strlit("could not record an llm call: ");
    assert("could not record "@ + "an llm call"@ + ": "@ =~= "could not record an llm call: "@);
}

/// What is told of a request that cannot be served: its tier first, then its prompt, then its settings.
pub proof fn law_what_is_told_of_a_request(request: CompleteRequestView)
    ensures
        request_fault(request, false) == Some(
            invalid("tier "@ + tier_name_of(known_tier_of(request.tier)) + " is not served"@),
        ),
        trimmed(request.user_prompt).len() == 0 ==> request_fault(request, true) == Some(
            invalid("user_prompt is required"@),
        ),
        trimmed(request.user_prompt).len() > 0 ==> request_fault(request, true) == sampling_fault(
            request.sampling,
        ),
{
}

/// What is told of stop sequences, biases and logprobs that are too many or out of range.
pub proof fn law_what_is_told_of_a_list_of_settings(
    stop: Seq<Seq<char>>,
    bias: Seq<(Seq<char>, u64)>,
    top_logprobs: i32,
    i: int,
)
    ensures
        stop.len() > 4 ==> stop_fault(stop) == Some(
            invalid("stop must hold at most "@ + dec(4) + " sequences"@),
        ),
        stop.len() <= 4 && 0 <= i < stop.len() && utf8_len(stop[i]) > 1_024 ==> stop_fault(stop) == Some(
            invalid("each stop sequence must be at most "@ + dec(1_024) + " bytes"@),
        ),
        bias.len() > 300 ==> bias_fault(bias) == Some(
            invalid("logit_bias must hold at most "@ + dec(300) + " entries"@),
        ),
        bias.len() <= 300 && 0 <= i < bias.len() && bias[i].1 % MINUS_ZERO > 0x4059_0000_0000_0000 ==> bias_fault(
            bias,
        ) == Some(
            invalid(
                "each logit_bias value"@ + " must be a finite number between "@ + dec_signed(-100) + " and "@ + dec(
                    100,
                ),
            ),
        ),
        !(0 <= top_logprobs <= 20) ==> logprobs_fault(Some(top_logprobs)) == Some(
            invalid("top_logprobs must be between 0 and "@ + dec(20)),
        ),
        0 <= top_logprobs <= 20 ==> logprobs_fault(Some(top_logprobs)) is None,
        logprobs_fault(None) is None,
{
    if 0 <= i < bias.len() {
        law_a_double_is_held_to_its_bounds(bias[i].1);
    }
}

/// What is told of a limit on the output that is over the tier's.
pub proof fn law_what_is_told_of_too_many_tokens(set: SamplingView, limits: TierLimits, asked: i32)
    requires
        set.max_tokens == Some(asked),
        asked > limits.max_output_tokens,
    ensures
        fit_of(set, limits) == Err::<SamplingView, Seq<char>>(
            "max_tokens is "@ + dec_signed(asked as int) + ", the maximum of this tier is "@ + dec_signed(
                limits.max_output_tokens as int,
            ),
        ),
{
}

/// The view of a request shows each of its parts under that part's own name.
pub proof fn law_the_view_of_a_complete_request_is_its_own(complete_request: CompleteRequest)
    ensures
        complete_request.deep_view().tier == complete_request.tier,
        complete_request.deep_view().system_prompt == complete_request.system_prompt@,
        complete_request.deep_view().user_prompt == complete_request.user_prompt@,
        complete_request.deep_view().sampling == complete_request.sampling.deep_view(),
{
}

/// The view of a recorded call shows each of its parts under that part's own name.
pub proof fn law_the_view_of_a_attempt_is_its_own(attempt: Attempt)
    ensures
        attempt.deep_view().tier == attempt.tier,
        attempt.deep_view().model_used == attempt.model_used@,
        attempt.deep_view().used_backup == attempt.used_backup,
        attempt.deep_view().tokens_in == attempt.tokens_in,
        attempt.deep_view().tokens_out == attempt.tokens_out,
        attempt.deep_view().latency_ms == attempt.latency_ms,
        attempt.deep_view().outcome == attempt.outcome,
        attempt.deep_view().finish_reason == attempt.finish_reason,
        attempt.deep_view().sent == attempt.sent.deep_view(),
        attempt.deep_view().received == attempt.received.deep_view(),
{
}

/// What is told of stop sequences that are too long together.
pub proof fn law_what_is_told_of_long_stop_sequences(stop: Seq<Seq<char>>)
    requires
        stop.len() <= 4,
        forall|i: int| 0 <= i < stop.len() ==> utf8_len(#[trigger] stop[i]) <= 1_024,
        total(stop.map_values(|text: Seq<char>| utf8_len(text))) > 2_048,
    ensures
        stop_fault(stop) == Some(
            invalid("stop sequences must total at most "@ + dec(2_048) + " bytes"@),
        ),
{
    assert(sequence_sizes(stop) =~= stop.map_values(|text: Seq<char>| utf8_len(text)));
}

} // verus!
