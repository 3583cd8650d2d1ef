//! What is kept of every call: statistics that stay, and payloads that expire.

use vstd::prelude::*;
use vstd::std_specs::convert::FromSpec;

use crate::llm_router::provider::{FinishReason, QualityTier};
use crate::text::{cut, cut_to};

verus! {

/// The width of the column that keeps a model's name. A longer name would fail the insert and take the whole
/// record of that call with it, so every name is cut to it, wherever it came from.
pub const MODEL_NAME_BYTES: usize = 128;

pub fn bounded_model_name(name: String) -> (kept: String)
    ensures
        kept@ == cut_to(name@, MODEL_NAME_BYTES as nat),
{
    cut(name.as_str(), MODEL_NAME_BYTES)
}

#[derive(Clone, Copy, Debug, PartialEq, Eq, Structural)]
pub enum Outcome {
    Answered,
    Failed,
}

#[derive(Clone, Copy, Debug, PartialEq, Eq, Structural)]
pub enum Tier {
    Unspecified,
    Low,
    Medium,
    High,
}

#[derive(Clone, Copy, Debug, PartialEq, Eq, Structural)]
pub enum Finish {
    Unspecified,
    Stop,
    Length,
    ContentFilter,
    ToolCalls,
}

impl Outcome {
    pub open spec fn column(self) -> Seq<char> {
        match self {
            Outcome::Answered => "answered"@,
            Outcome::Failed => "failed"@,
        }
    }

    /// The text a column keeps for this outcome.
    pub fn text(self) -> (text: &'static str)
        ensures
            text@ == self.column(),
    {
        match self {
            Outcome::Answered => "answered",
            Outcome::Failed => "failed",
        }
    }
}

impl Tier {
    pub open spec fn column(self) -> Seq<char> {
        match self {
            Tier::Unspecified => "unspecified"@,
            Tier::Low => "low"@,
            Tier::Medium => "medium"@,
            Tier::High => "high"@,
        }
    }

    /// The text a column keeps for this tier.
    pub fn text(self) -> (text: &'static str)
        ensures
            text@ == self.column(),
    {
        match self {
            Tier::Unspecified => "unspecified",
            Tier::Low => "low",
            Tier::Medium => "medium",
            Tier::High => "high",
        }
    }
}

impl Finish {
    pub open spec fn column(self) -> Seq<char> {
        match self {
            Finish::Unspecified => "unspecified"@,
            Finish::Stop => "stop"@,
            Finish::Length => "length"@,
            Finish::ContentFilter => "content_filter"@,
            Finish::ToolCalls => "tool_calls"@,
        }
    }

    /// The text a column keeps for this reason.
    pub fn text(self) -> (text: &'static str)
        ensures
            text@ == self.column(),
    {
        match self {
            Finish::Unspecified => "unspecified",
            Finish::Stop => "stop",
            Finish::Length => "length",
            Finish::ContentFilter => "content_filter",
            Finish::ToolCalls => "tool_calls",
        }
    }
}

impl vstd::std_specs::convert::FromSpecImpl<QualityTier> for Tier {
    open spec fn obeys_from_spec() -> bool {
        true
    }

    open spec fn from_spec(tier: QualityTier) -> Tier {
        match tier {
            QualityTier::Unspecified => Tier::Unspecified,
            QualityTier::Low => Tier::Low,
            QualityTier::Medium => Tier::Medium,
            QualityTier::High => Tier::High,
        }
    }
}

impl From<QualityTier> for Tier {
    fn from(tier: QualityTier) -> (kept: Tier) {
        match tier {
            QualityTier::Unspecified => Tier::Unspecified,
            QualityTier::Low => Tier::Low,
            QualityTier::Medium => Tier::Medium,
            QualityTier::High => Tier::High,
        }
    }
}

impl vstd::std_specs::convert::FromSpecImpl<FinishReason> for Finish {
    open spec fn obeys_from_spec() -> bool {
        true
    }

    open spec fn from_spec(reason: FinishReason) -> Finish {
        match reason {
            FinishReason::Unspecified => Finish::Unspecified,
            FinishReason::Stop => Finish::Stop,
            FinishReason::Length => Finish::Length,
            FinishReason::ContentFilter => Finish::ContentFilter,
            FinishReason::ToolCalls => Finish::ToolCalls,
        }
    }
}

impl From<FinishReason> for Finish {
    fn from(reason: FinishReason) -> (kept: Finish) {
        match reason {
            FinishReason::Unspecified => Finish::Unspecified,
            FinishReason::Stop => Finish::Stop,
            FinishReason::Length => Finish::Length,
            FinishReason::ContentFilter => Finish::ContentFilter,
            FinishReason::ToolCalls => Finish::ToolCalls,
        }
    }
}

/// Each outcome, tier and reason is kept under its own text, and no two of them under one.
pub proof fn law_every_column_text_is_its_own()
    ensures
        Outcome::Answered.column() == "answered"@,
        Outcome::Failed.column() == "failed"@,
        Tier::Unspecified.column() == "unspecified"@,
        Tier::Low.column() == "low"@,
        Tier::Medium.column() == "medium"@,
        Tier::High.column() == "high"@,
        Finish::Unspecified.column() == "unspecified"@,
        Finish::Stop.column() == "stop"@,
        Finish::Length.column() == "length"@,
        Finish::ContentFilter.column() == "content_filter"@,
        Finish::ToolCalls.column() == "tool_calls"@,
{
}

/// A tier is kept as the tier of its own name, and a reason as the reason of its own.
pub proof fn law_a_tier_is_kept_under_its_own_name(tier: QualityTier, reason: FinishReason)
    ensures
        Tier::from_spec(tier) == Tier::Low <==> tier == QualityTier::Low,
        Tier::from_spec(tier) == Tier::Medium <==> tier == QualityTier::Medium,
        Tier::from_spec(tier) == Tier::High <==> tier == QualityTier::High,
        Tier::from_spec(tier) == Tier::Unspecified <==> tier == QualityTier::Unspecified,
        Finish::from_spec(reason) == Finish::Stop <==> reason == FinishReason::Stop,
        Finish::from_spec(reason) == Finish::Length <==> reason == FinishReason::Length,
        Finish::from_spec(reason) == Finish::ContentFilter <==> reason == FinishReason::ContentFilter,
        Finish::from_spec(reason) == Finish::ToolCalls <==> reason == FinishReason::ToolCalls,
{
}

} // verus!
