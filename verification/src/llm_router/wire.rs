//! The published contract of the tiers, and how an answer is told.

use vstd::prelude::*;

use crate::collect::keep;
use crate::llm_router::provider::{FinishReason, QualityTier, ResponseFormat};
use crate::llm_router::router::{Answer, AnswerView};

verus! {

/// A tier as it arrives: one this service knows, or the number of one it does not.
#[derive(Clone, Copy, Debug, PartialEq, Eq, Structural)]
pub enum TierValue {
    Known(QualityTier),
    Unknown(i32),
}

pub open spec fn known_tier_of(tier: TierValue) -> QualityTier {
    match tier {
        TierValue::Known(tier) => tier,
        TierValue::Unknown(_) => QualityTier::Unspecified,
    }
}

pub fn known_tier(tier: TierValue) -> (known: QualityTier)
    ensures
        known == known_tier_of(tier),
{
    match tier {
        TierValue::Known(tier) => tier,
        TierValue::Unknown(_) => QualityTier::Unspecified,
    }
}

#[derive(Clone, Copy, Debug, PartialEq, Eq, Structural)]
pub enum ReasoningMode {
    Off,
    On,
}

/// What a tier allows its callers.
#[derive(Clone, Copy, Debug, PartialEq, Eq, Structural)]
pub struct TierLimits {
    pub max_input_tokens: i32,
    pub max_output_tokens: i32,
    pub reasoning: ReasoningMode,
}

/// The limits of every tier that is served.
#[derive(Clone, Copy, Debug, PartialEq, Eq, Structural)]
pub struct LimitTable {
    pub low: Option<TierLimits>,
    pub medium: Option<TierLimits>,
    pub high: Option<TierLimits>,
}

impl LimitTable {
    pub open spec fn spec_limits(self, tier: QualityTier) -> Option<TierLimits> {
        match tier {
            QualityTier::Unspecified => None,
            QualityTier::Low => self.low,
            QualityTier::Medium => self.medium,
            QualityTier::High => self.high,
        }
    }

    pub fn limits(&self, tier: QualityTier) -> (limits: Option<TierLimits>)
        ensures
            limits == self.spec_limits(tier),
    {
        match tier {
            QualityTier::Unspecified => None,
            QualityTier::Low => self.low,
            QualityTier::Medium => self.medium,
            QualityTier::High => self.high,
        }
    }

    /// A tier whose models may reason.
    pub fn reasoning_enabled(&self, tier: QualityTier) -> (enabled: bool)
        ensures
            enabled == (self.spec_limits(tier) is Some && self.spec_limits(tier)->Some_0.reasoning
                == ReasoningMode::On),
    {
        match self.limits(tier) {
            Some(limits) => limits.reasoning == ReasoningMode::On,
            None => false,
        }
    }
}

/// A tier as it is published.
#[derive(Debug, PartialEq, Eq)]
pub struct TierContract {
    pub tier: QualityTier,
    pub max_input_tokens: i32,
    pub max_output_tokens: i32,
    pub reasoning: ReasoningMode,
    pub response_formats: Vec<ResponseFormat>,
}

#[verifier::ext_equal]
pub struct TierContractView {
    pub tier: QualityTier,
    pub limits: TierLimits,
    pub response_formats: Seq<ResponseFormat>,
}

impl DeepView for TierContract {
    type V = TierContractView;

    open spec fn deep_view(&self) -> TierContractView {
        TierContractView {
            tier: self.tier,
            limits: TierLimits {
                max_input_tokens: self.max_input_tokens,
                max_output_tokens: self.max_output_tokens,
                reasoning: self.reasoning,
            },
            response_formats: self.response_formats@,
        }
    }
}

pub open spec fn contract_if(
    tier: QualityTier,
    limits: Option<TierLimits>,
    response_formats: Seq<ResponseFormat>,
) -> Seq<TierContractView> {
    match limits {
        Some(limits) => seq![TierContractView { tier, limits, response_formats }],
        None => seq![],
    }
}

fn publish(
    contracts: &mut Vec<TierContract>,
    tier: QualityTier,
    limits: Option<TierLimits>,
    formats: &Vec<ResponseFormat>,
)
    ensures
        final(contracts).deep_view() == old(contracts).deep_view() + contract_if(
            tier,
            limits,
            formats@,
        ),
{
    let ghost before = contracts.deep_view();
    if let Some(limits) = limits {
        let mut response_formats: Vec<ResponseFormat> = Vec::new();
        for i in 0..formats.len()
            invariant
                response_formats@ == formats@.take(i as int),
        {
            response_formats.push(formats[i]);
        }
        assert(response_formats@ =~= formats@);
        keep(
            contracts,
            TierContract {
                tier,
                max_input_tokens: limits.max_input_tokens,
                max_output_tokens: limits.max_output_tokens,
                reasoning: limits.reasoning,
                response_formats,
            },
        );
    }
    assert(contracts.deep_view() =~= before + contract_if(tier, limits, formats@));
}

/// Every tier that is served, as its limits stand, with the formats of a reply it can be asked for.
pub fn tier_contracts(table: &LimitTable, formats: &Vec<ResponseFormat>) -> (contracts: Vec<TierContract>)
    ensures
        contracts.deep_view() == contract_if(QualityTier::Low, table.low, formats@) + contract_if(
            QualityTier::Medium,
            table.medium,
            formats@,
        ) + contract_if(QualityTier::High, table.high, formats@),
{
    let mut contracts: Vec<TierContract> = Vec::new();
    assert(contracts.deep_view() =~= seq![]);
    publish(&mut contracts, QualityTier::Low, table.low, formats);
    assert(contracts.deep_view() =~= contract_if(QualityTier::Low, table.low, formats@));
    publish(&mut contracts, QualityTier::Medium, table.medium, formats);
    publish(&mut contracts, QualityTier::High, table.high, formats);
    contracts
}

/// The published contract matches the limits: a tier is published exactly where it has limits, with those.
pub proof fn law_the_published_contract_matches_the_limits(
    table: LimitTable,
    formats: Seq<ResponseFormat>,
    contract: TierContractView,
)
    ensures
        (contract_if(QualityTier::Low, table.low, formats) + contract_if(
            QualityTier::Medium,
            table.medium,
            formats,
        ) + contract_if(QualityTier::High, table.high, formats)).contains(contract) <==> {
            &&& table.spec_limits(contract.tier) == Some(contract.limits)
            &&& contract.response_formats == formats
        },
{
    let low = contract_if(QualityTier::Low, table.low, formats);
    let medium = contract_if(QualityTier::Medium, table.medium, formats);
    let high = contract_if(QualityTier::High, table.high, formats);
    let all = low + medium + high;
    if table.spec_limits(contract.tier) == Some(contract.limits) && contract.response_formats == formats {
        let at = match contract.tier {
            QualityTier::Low => 0,
            QualityTier::Medium => low.len() as int,
            _ => (low.len() + medium.len()) as int,
        };
        assert(all[at] == contract);
    }
}

/// What a caller is told of a completion.
#[derive(Debug, PartialEq, Eq)]
pub struct CompleteResponse {
    pub content: String,
    pub model_used: String,
    pub tokens_in: i32,
    pub tokens_out: i32,
    pub used_backup: bool,
    pub finish_reason: FinishReason,
}

pub struct CompleteResponseView {
    pub content: Seq<char>,
    pub model_used: Seq<char>,
    pub tokens_in: i32,
    pub tokens_out: i32,
    pub used_backup: bool,
    pub finish_reason: FinishReason,
}

impl DeepView for CompleteResponse {
    type V = CompleteResponseView;

    open spec fn deep_view(&self) -> CompleteResponseView {
        CompleteResponseView {
            content: self.content@,
            model_used: self.model_used@,
            tokens_in: self.tokens_in,
            tokens_out: self.tokens_out,
            used_backup: self.used_backup,
            finish_reason: self.finish_reason,
        }
    }
}

pub open spec fn response_of(answer: AnswerView) -> CompleteResponseView {
    CompleteResponseView {
        content: answer.completion.content,
        model_used: answer.model_used,
        tokens_in: answer.completion.tokens_in,
        tokens_out: answer.completion.tokens_out,
        used_backup: answer.used_backup,
        finish_reason: answer.completion.finish_reason,
    }
}

pub fn response_from(answer: Answer) -> (response: CompleteResponse)
    ensures
        response.deep_view() == response_of(answer.deep_view()),
{
    CompleteResponse {
        content: answer.completion.content,
        model_used: answer.model_used,
        tokens_in: answer.completion.tokens_in,
        tokens_out: answer.completion.tokens_out,
        used_backup: answer.used_backup,
        finish_reason: answer.completion.finish_reason,
    }
}

/// A caller is told what the model answered, each part in its own field.
pub proof fn law_a_completion_is_told_as_it_came(answer: AnswerView)
    ensures
        response_of(answer).content == answer.completion.content,
        response_of(answer).model_used == answer.model_used,
        response_of(answer).tokens_in == answer.completion.tokens_in,
        response_of(answer).tokens_out == answer.completion.tokens_out,
        response_of(answer).used_backup == answer.used_backup,
        response_of(answer).finish_reason == answer.completion.finish_reason,
{
}

/// A tier has the limits that were set for that very tier, and a tier that is not named has none.
pub proof fn law_each_tier_has_its_own_limits(table: LimitTable, number: i32)
    ensures
        table.spec_limits(QualityTier::Low) == table.low,
        table.spec_limits(QualityTier::Medium) == table.medium,
        table.spec_limits(QualityTier::High) == table.high,
        table.spec_limits(QualityTier::Unspecified) is None,
        known_tier_of(TierValue::Unknown(number)) == QualityTier::Unspecified,
        forall|tier: QualityTier| #[trigger] known_tier_of(TierValue::Known(tier)) == tier,
{
}

/// A contract that is published says the tier, the limits and the formats it stands for.
pub proof fn law_a_contract_says_what_it_stands_for(
    tier: QualityTier,
    limits: TierLimits,
    formats: Seq<ResponseFormat>,
)
    ensures
        contract_if(tier, None, formats).len() == 0,
        contract_if(tier, Some(limits), formats).len() == 1,
        contract_if(tier, Some(limits), formats)[0].tier == tier,
        contract_if(tier, Some(limits), formats)[0].limits == limits,
        contract_if(tier, Some(limits), formats)[0].response_formats == formats,
{
}

/// The view of a response shows each of its parts under that part's own name.
pub proof fn law_the_view_of_a_complete_response_is_its_own(complete_response: CompleteResponse)
    ensures
        complete_response.deep_view().content == complete_response.content@,
        complete_response.deep_view().model_used == complete_response.model_used@,
        complete_response.deep_view().tokens_in == complete_response.tokens_in,
        complete_response.deep_view().tokens_out == complete_response.tokens_out,
        complete_response.deep_view().used_backup == complete_response.used_backup,
        complete_response.deep_view().finish_reason == complete_response.finish_reason,
{
}

/// The view of a contract shows the tier, the limits and the formats it was made of.
pub proof fn law_the_view_of_a_contract_is_its_own(contract: TierContract)
    ensures
        contract.deep_view().tier == contract.tier,
        contract.deep_view().limits.max_input_tokens == contract.max_input_tokens,
        contract.deep_view().limits.max_output_tokens == contract.max_output_tokens,
        contract.deep_view().limits.reasoning == contract.reasoning,
        contract.deep_view().response_formats == contract.response_formats@,
{
}

} // verus!
