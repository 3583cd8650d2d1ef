//! Deployment settings: which models serve each tier.

use vstd::prelude::*;

use crate::llm_router::provider::QualityTier;
use crate::text::{cat2, cat3, is_blank, trimmed};

verus! {

#[derive(Debug)]
pub struct TierModels {
    pub primary: String,
    pub backup: String,
}

#[derive(Debug)]
pub struct Tiers {
    pub low: TierModels,
    pub medium: TierModels,
    pub high: TierModels,
}

/// A lookup of settings answers a name with a value, or with none.
pub open spec fn answers<F: Fn(&str) -> Option<String>>(
    lookup: F,
    name: Seq<char>,
    value: Option<String>,
) -> bool {
    exists|key: &str| key@ == name && #[trigger] call_ensures(lookup, (key,), value)
}

/// A setting holds a text that is not blank.
pub open spec fn holds<F: Fn(&str) -> Option<String>>(
    lookup: F,
    name: Seq<char>,
    text: Seq<char>,
) -> bool {
    &&& trimmed(text).len() > 0
    &&& exists|value: String| value@ == text && #[trigger] answers(lookup, name, Some(value))
}

/// A setting is not set, or holds nothing but white space.
pub open spec fn is_unset<F: Fn(&str) -> Option<String>>(lookup: F, name: Seq<char>) -> bool {
    ||| answers(lookup, name, None)
    ||| exists|value: String| trimmed(value@).len() == 0 && #[trigger] answers(lookup, name, Some(value))
}

pub open spec fn is_set<F: Fn(&str) -> Option<String>>(lookup: F, name: Seq<char>) -> bool {
    exists|text: Seq<char>| holds(lookup, name, text)
}

pub open spec fn primary_name(tier: Seq<char>) -> Seq<char> {
    "LLM_"@ + tier + "_PRIMARY"@
}

pub open spec fn backup_name(tier: Seq<char>) -> Seq<char> {
    "LLM_"@ + tier + "_BACKUP"@
}

pub open spec fn unset_message(name: Seq<char>) -> Seq<char> {
    name + " is not set"@
}

pub fn required<F: Fn(&str) -> Option<String>>(lookup: &F, name: &str) -> (value: Result<
    String,
    String,
>)
    requires
        forall|key: &str| call_requires(*lookup, (key,)),
    ensures
        (match value {
            Ok(text) => holds(*lookup, name@, text@),
            Err(error) => is_unset(*lookup, name@) && error@ == unset_message(name@),
        }),
{
    match lookup(name) {
        Some(value) => {
            assert(answers(*lookup, name@, Some(value)));
            if is_blank(value.as_str()) {
                Err(cat2(name, " is not set"))
            } else {
                Ok(value)
            }
        },
        None => {
            assert(answers(*lookup, name@, None));
            Err(cat2(name, " is not set"))
        },
    }
}

impl TierModels {
    pub fn from_vars<F: Fn(&str) -> Option<String>>(lookup: &F, tier: &str) -> (models: Result<
        TierModels,
        String,
    >)
        requires
            forall|key: &str| call_requires(*lookup, (key,)),
        ensures
            (match models {
                Ok(models) => holds(*lookup, primary_name(tier@), models.primary@) && holds(
                    *lookup,
                    backup_name(tier@),
                    models.backup@,
                ),
                Err(error) => {
                    ||| is_unset(*lookup, primary_name(tier@)) && error@ == unset_message(
                        primary_name(tier@),
                    )
                    ||| is_set(*lookup, primary_name(tier@)) && is_unset(*lookup, backup_name(tier@))
                        && error@ == unset_message(backup_name(tier@))
                },
            }),
    {
        let primary: String = required(lookup, cat3("LLM_", tier, "_PRIMARY").as_str())?;
        let backup: String = required(lookup, cat3("LLM_", tier, "_BACKUP").as_str())?;
        Ok(TierModels { primary, backup })
    }
}

/// Both models of a tier are set.
pub open spec fn tier_is_set<F: Fn(&str) -> Option<String>>(lookup: F, tier: Seq<char>) -> bool {
    is_set(lookup, primary_name(tier)) && is_set(lookup, backup_name(tier))
}

/// The first model of a tier that is not set, and the error that names it.
pub open spec fn tier_fault<F: Fn(&str) -> Option<String>>(
    lookup: F,
    tier: Seq<char>,
    error: Seq<char>,
) -> bool {
    ||| is_unset(lookup, primary_name(tier)) && error == unset_message(primary_name(tier))
    ||| is_set(lookup, primary_name(tier)) && is_unset(lookup, backup_name(tier)) && error
        == unset_message(backup_name(tier))
}

/// The models of a tier are the settings of that tier.
pub open spec fn tier_holds<F: Fn(&str) -> Option<String>>(
    lookup: F,
    tier: Seq<char>,
    models: TierModels,
) -> bool {
    holds(lookup, primary_name(tier), models.primary@) && holds(
        lookup,
        backup_name(tier),
        models.backup@,
    )
}

impl Tiers {
    /// Every tier with its primary and its backup, or the first setting that is missing, by name.
    pub fn from_vars<F: Fn(&str) -> Option<String>>(lookup: F) -> (tiers: Result<Tiers, String>)
        requires
            forall|key: &str| call_requires(lookup, (key,)),
        ensures
            (match tiers {
                Ok(tiers) => {
                    &&& tier_holds(lookup, "LOW"@, tiers.low)
                    &&& tier_holds(lookup, "MEDIUM"@, tiers.medium)
                    &&& tier_holds(lookup, "HIGH"@, tiers.high)
                },
                Err(error) => {
                    ||| tier_fault(lookup, "LOW"@, error@)
                    ||| tier_is_set(lookup, "LOW"@) && tier_fault(lookup, "MEDIUM"@, error@)
                    ||| tier_is_set(lookup, "LOW"@) && tier_is_set(lookup, "MEDIUM"@) && tier_fault(
                        lookup,
                        "HIGH"@,
                        error@,
                    )
                },
            }),
    {
        let low: TierModels = TierModels::from_vars(&lookup, "LOW")?;
        let medium: TierModels = TierModels::from_vars(&lookup, "MEDIUM")?;
        let high: TierModels = TierModels::from_vars(&lookup, "HIGH")?;
        Ok(Tiers { low, medium, high })
    }

    pub open spec fn spec_models(self, tier: QualityTier) -> Option<TierModels> {
        match tier {
            QualityTier::Low => Some(self.low),
            QualityTier::Medium => Some(self.medium),
            QualityTier::High => Some(self.high),
            QualityTier::Unspecified => None,
        }
    }

    pub fn models(&self, tier: QualityTier) -> (models: Option<&TierModels>)
        ensures
            (match models {
                Some(models) => self.spec_models(tier) == Some(*models),
                None => self.spec_models(tier) is None,
            }),
    {
        match tier {
            QualityTier::Low => Some(&self.low),
            QualityTier::Medium => Some(&self.medium),
            QualityTier::High => Some(&self.high),
            QualityTier::Unspecified => None,
        }
    }
}

/// Each tier asks its own models, and a tier that is not named asks none.
pub proof fn law_each_tier_asks_its_own_models(tiers: Tiers)
    ensures
        tiers.spec_models(QualityTier::Low) == Some(tiers.low),
        tiers.spec_models(QualityTier::Medium) == Some(tiers.medium),
        tiers.spec_models(QualityTier::High) == Some(tiers.high),
        tiers.spec_models(QualityTier::Unspecified) is None,
{
}

/// A tier's models are read from the two settings that carry its name, and a setting that is missing is told by its
/// whole name.
pub proof fn law_a_setting_is_named_after_its_tier(tier: Seq<char>, name: Seq<char>)
    ensures
        primary_name(tier) == "LLM_"@ + tier + "_PRIMARY"@,
        backup_name(tier) == "LLM_"@ + tier + "_BACKUP"@,
        primary_name(tier) != backup_name(tier),
        unset_message(name) == name + " is not set"@,
{
    reveal_strlit("LLM_");
    reveal_strlit("_PRIMARY");
    reveal_strlit("_BACKUP");
    assert(primary_name(tier).len() != backup_name(tier).len());
}

/// A tier's primary is what its own primary setting holds, and its backup what its own backup setting holds.
pub proof fn law_a_tier_holds_its_own_settings<F: Fn(&str) -> Option<String>>(
    lookup: F,
    tier: Seq<char>,
    models: TierModels,
)
    ensures
        tier_holds(lookup, tier, models) <==> holds(lookup, "LLM_"@ + tier + "_PRIMARY"@, models.primary@) && holds(
            lookup,
            "LLM_"@ + tier + "_BACKUP"@,
            models.backup@,
        ),
{
}

} // verus!
