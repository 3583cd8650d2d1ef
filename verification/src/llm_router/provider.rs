//! The contract between the router and a provider: prompts, completions, and the ways a call ends badly.

use vstd::prelude::*;

use crate::json::{Json, JsonView};

verus! {

/// Three ways a call ends badly: try the backup, the caller's own request was rejected, or this service's side
/// of the contract was broken. Only `Refused` carries a fault the caller could fix.
#[derive(Debug, PartialEq, Eq)]
pub enum CallError {
    WorthRetrying(String),
    Refused(String),
    Final(String),
}

pub enum CallErrorView {
    WorthRetrying(Seq<char>),
    Refused(Seq<char>),
    Final(Seq<char>),
}

impl DeepView for CallError {
    type V = CallErrorView;

    open spec fn deep_view(&self) -> CallErrorView {
        match self {
            CallError::WorthRetrying(message) => CallErrorView::WorthRetrying(message@),
            CallError::Refused(message) => CallErrorView::Refused(message@),
            CallError::Final(message) => CallErrorView::Final(message@),
        }
    }
}

impl CallErrorView {
    pub open spec fn message(self) -> Seq<char> {
        match self {
            CallErrorView::WorthRetrying(message) => message,
            CallErrorView::Refused(message) => message,
            CallErrorView::Final(message) => message,
        }
    }
}

impl CallError {
    pub fn message(&self) -> (message: &str)
        ensures
            message@ == self.deep_view().message(),
    {
        match self {
            CallError::WorthRetrying(message) => message.as_str(),
            CallError::Refused(message) => message.as_str(),
            CallError::Final(message) => message.as_str(),
        }
    }
}

/// The tiers of quality a caller may ask for.
#[derive(Clone, Copy, Debug, PartialEq, Eq, Structural)]
pub enum QualityTier {
    Unspecified,
    Low,
    Medium,
    High,
}

#[derive(Clone, Copy, Debug, PartialEq, Eq, Structural)]
pub enum FinishReason {
    Unspecified,
    Stop,
    Length,
    ContentFilter,
    ToolCalls,
}

/// The format a caller asks a reply to have; a number stands for one this service does not know.
#[derive(Clone, Copy, Debug, PartialEq, Eq, Structural)]
pub enum ResponseFormat {
    Unspecified,
    Text,
    JsonObject,
    Unknown(i32),
}

/// The settings of a call, each left out where the caller left it out. Doubles are held by their bits.
#[derive(Debug, PartialEq, Eq)]
pub struct Sampling {
    pub temperature: Option<u64>,
    pub top_p: Option<u64>,
    pub max_tokens: Option<i32>,
    pub stop: Vec<String>,
    pub frequency_penalty: Option<u64>,
    pub presence_penalty: Option<u64>,
    pub seed: Option<i64>,
    pub logit_bias: Vec<(String, u64)>,
    pub logprobs: Option<bool>,
    pub top_logprobs: Option<i32>,
    pub response_format: Option<ResponseFormat>,
}

#[verifier::ext_equal]
pub struct SamplingView {
    pub temperature: Option<u64>,
    pub top_p: Option<u64>,
    pub max_tokens: Option<i32>,
    pub stop: Seq<Seq<char>>,
    pub frequency_penalty: Option<u64>,
    pub presence_penalty: Option<u64>,
    pub seed: Option<i64>,
    pub logit_bias: Seq<(Seq<char>, u64)>,
    pub logprobs: Option<bool>,
    pub top_logprobs: Option<i32>,
    pub response_format: Option<ResponseFormat>,
}

impl DeepView for Sampling {
    type V = SamplingView;

    open spec fn deep_view(&self) -> SamplingView {
        SamplingView {
            temperature: self.temperature,
            top_p: self.top_p,
            max_tokens: self.max_tokens,
            stop: self.stop.deep_view(),
            frequency_penalty: self.frequency_penalty,
            presence_penalty: self.presence_penalty,
            seed: self.seed,
            logit_bias: self.logit_bias.deep_view(),
            logprobs: self.logprobs,
            top_logprobs: self.top_logprobs,
            response_format: self.response_format,
        }
    }
}

impl Default for Sampling {
    fn default() -> (sampling: Sampling)
        ensures
            sampling.deep_view() == (SamplingView {
                temperature: None,
                top_p: None,
                max_tokens: None,
                stop: seq![],
                frequency_penalty: None,
                presence_penalty: None,
                seed: None,
                logit_bias: seq![],
                logprobs: None,
                top_logprobs: None,
                response_format: None,
            }),
    {
        let sampling: Sampling = Sampling {
            temperature: None,
            top_p: None,
            max_tokens: None,
            stop: Vec::new(),
            frequency_penalty: None,
            presence_penalty: None,
            seed: None,
            logit_bias: Vec::new(),
            logprobs: None,
            top_logprobs: None,
            response_format: None,
        };
        assert(sampling.stop.deep_view() =~= seq![]);
        assert(sampling.logit_bias.deep_view() =~= seq![]);
        sampling
    }
}

/// A prompt as it is put to a provider.
#[derive(Debug, PartialEq, Eq)]
pub struct Prompt {
    pub tier: QualityTier,
    pub system: String,
    pub user: String,
    pub sampling: Sampling,
}

#[verifier::ext_equal]
pub struct PromptView {
    pub tier: QualityTier,
    pub system: Seq<char>,
    pub user: Seq<char>,
    pub sampling: SamplingView,
}

impl DeepView for Prompt {
    type V = PromptView;

    open spec fn deep_view(&self) -> PromptView {
        PromptView {
            tier: self.tier,
            system: self.system@,
            user: self.user@,
            sampling: self.sampling.deep_view(),
        }
    }
}

/// What a provider completed, with the whole of its reply.
#[derive(Debug, PartialEq, Eq)]
pub struct Completion {
    pub content: String,
    pub tokens_in: i32,
    pub tokens_out: i32,
    pub finish_reason: FinishReason,
    pub reply: Json,
}

pub struct CompletionView {
    pub content: Seq<char>,
    pub tokens_in: i32,
    pub tokens_out: i32,
    pub finish_reason: FinishReason,
    pub reply: JsonView,
}

impl DeepView for Completion {
    type V = CompletionView;

    open spec fn deep_view(&self) -> CompletionView {
        CompletionView {
            content: self.content@,
            tokens_in: self.tokens_in,
            tokens_out: self.tokens_out,
            finish_reason: self.finish_reason,
            reply: self.reply.deep_view(),
        }
    }
}

/// The view of a set of settings shows each of its parts under that part's own name.
pub proof fn law_the_view_of_a_sampling_is_its_own(sampling: Sampling)
    ensures
        sampling.deep_view().temperature == sampling.temperature,
        sampling.deep_view().top_p == sampling.top_p,
        sampling.deep_view().max_tokens == sampling.max_tokens,
        sampling.deep_view().stop == sampling.stop.deep_view(),
        sampling.deep_view().frequency_penalty == sampling.frequency_penalty,
        sampling.deep_view().presence_penalty == sampling.presence_penalty,
        sampling.deep_view().seed == sampling.seed,
        sampling.deep_view().logit_bias == sampling.logit_bias.deep_view(),
        sampling.deep_view().logprobs == sampling.logprobs,
        sampling.deep_view().top_logprobs == sampling.top_logprobs,
        sampling.deep_view().response_format == sampling.response_format,
{
}

/// The view of a prompt shows each of its parts under that part's own name.
pub proof fn law_the_view_of_a_prompt_is_its_own(prompt: Prompt)
    ensures
        prompt.deep_view().tier == prompt.tier,
        prompt.deep_view().system == prompt.system@,
        prompt.deep_view().user == prompt.user@,
        prompt.deep_view().sampling == prompt.sampling.deep_view(),
{
}

/// The view of a completion shows each of its parts under that part's own name.
pub proof fn law_the_view_of_a_completion_is_its_own(completion: Completion)
    ensures
        completion.deep_view().content == completion.content@,
        completion.deep_view().tokens_in == completion.tokens_in,
        completion.deep_view().tokens_out == completion.tokens_out,
        completion.deep_view().finish_reason == completion.finish_reason,
        completion.deep_view().reply == completion.reply.deep_view(),
{
}

/// The view of an error keeps its kind and its words.
pub proof fn law_the_view_of_an_error_is_its_own(error: CallError)
    ensures
        error matches CallError::WorthRetrying(message) ==> error.deep_view() == CallErrorView::WorthRetrying(message@)
            && error.deep_view().message() == message@,
        error matches CallError::Refused(message) ==> error.deep_view() == CallErrorView::Refused(message@)
            && error.deep_view().message() == message@,
        error matches CallError::Final(message) ==> error.deep_view() == CallErrorView::Final(message@)
            && error.deep_view().message() == message@,
{
}

} // verus!
