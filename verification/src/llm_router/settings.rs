//! What a deployment sets: keys, addresses, models, and the operator's routing policy.

use vstd::prelude::*;

use crate::json::{json_parsed, parse, Json, JsonView};
use crate::llm_router::adapters::KeyCheck;
use crate::llm_router::tiers::{answers, is_unset, unset_message};
use crate::text::{cat2, cat3, trim, trimmed};
use vstd::utf8::encode_utf8;

verus! {

/// A completion generates prose, so it keeps a generous deadline, in seconds. A decision has its own, far
/// shorter one.
pub const COMPLETION_REQUEST_TIMEOUT: u64 = 60;

/// In seconds.
pub const PARTITION_MAINTENANCE_INTERVAL: u64 = 3_600;

pub const DEFAULT_COMPLETION_BASE_URL: &'static str = "https://openrouter.ai/api/v1";

pub const DEFAULT_SYSTEM_ONE_BASE_URL: &'static str = "https://api.typesafe.ai";

pub const DEFAULT_SYSTEM_ONE_MODEL: &'static str = "jev-1.13.0";

pub const ROUTING_VARIABLE: &'static str = "LLM_PROVIDER_ROUTING_JSON";

/// A setting that is set holds this text once the white space around it is gone, and it holds some.
pub open spec fn reads<F: Fn(&str) -> Option<String>>(
    lookup: F,
    name: Seq<char>,
    text: Seq<char>,
) -> bool {
    &&& text.len() > 0
    &&& exists|value: String| trimmed(value@) == text && #[trigger] answers(lookup, name, Some(value))
}

/// A variable set to blank is as good as unset, and what is set comes back trimmed.
pub fn env<F: Fn(&str) -> Option<String>>(lookup: &F, name: &str) -> (value: Option<String>)
    requires
        forall|key: &str| call_requires(*lookup, (key,)),
    ensures
        (match value {
            Some(text) => reads(*lookup, name@, text@),
            None => is_unset(*lookup, name@),
        }),
{
    match lookup(name) {
        Some(value) => {
            assert(answers(*lookup, name@, Some(value)));
            let kept: String = trim(value.as_str());
            if kept.as_str().is_empty() {
                None
            } else {
                Some(kept)
            }
        },
        None => {
            assert(answers(*lookup, name@, None));
            None
        },
    }
}

pub fn required<F: Fn(&str) -> Option<String>>(lookup: &F, name: &str) -> (value: Result<
    String,
    String,
>)
    requires
        forall|key: &str| call_requires(*lookup, (key,)),
    ensures
        (match value {
            Ok(text) => reads(*lookup, name@, text@),
            Err(error) => is_unset(*lookup, name@) && error@ == unset_message(name@),
        }),
{
    match env(lookup, name) {
        Some(value) => Ok(value),
        None => Err(cat2(name, " is not set")),
    }
}

/// A routing policy is any JSON object, forwarded as it was written and looked into no further.
pub open spec fn routing_of(parsed: Result<JsonView, Seq<char>>) -> Result<JsonView, Seq<char>> {
    match parsed {
        Err(error) => Err(ROUTING_VARIABLE@ + " is not valid JSON: "@ + error),
        Ok(JsonView::Object(entries)) => Ok(JsonView::Object(entries)),
        Ok(_) => Err(ROUTING_VARIABLE@ + " must be a JSON object"@),
    }
}

/// The policy in what was parsed of the setting.
pub fn checked_routing(parsed: Result<Json, String>) -> (policy: Result<Json, String>)
    ensures
        crate::collect::outcome(policy) == routing_of(crate::collect::outcome(parsed)),
{
    match parsed {
        Err(error) => Err(cat3(ROUTING_VARIABLE, " is not valid JSON: ", error.as_str())),
        Ok(json) => {
            let is_object: bool = match &json {
                Json::Object(_) => true,
                _ => false,
            };
            if is_object {
                Ok(json)
            } else {
                Err(cat2(ROUTING_VARIABLE, " must be a JSON object"))
            }
        },
    }
}

pub fn provider_routing<F: Fn(&str) -> Option<String>>(lookup: &F) -> (policy: Result<
    Option<Json>,
    String,
>)
    requires
        forall|key: &str| call_requires(*lookup, (key,)),
    ensures
        (match policy {
            Ok(None) => is_unset(*lookup, ROUTING_VARIABLE@),
            Ok(Some(policy)) => exists|raw: Seq<char>|
                #[trigger] reads(*lookup, ROUTING_VARIABLE@, raw) && routing_of(
                    json_parsed(encode_utf8(raw)),
                ) == Ok::<JsonView, Seq<char>>(policy.deep_view()),
            Err(error) => exists|raw: Seq<char>|
                #[trigger] reads(*lookup, ROUTING_VARIABLE@, raw) && routing_of(
                    json_parsed(encode_utf8(raw)),
                ) == Err::<JsonView, Seq<char>>(error@),
        }),
{
    match env(lookup, ROUTING_VARIABLE) {
        None => Ok(None),
        Some(raw) => {
            let parsed: Result<Json, String> = parse(raw.as_str().as_bytes());
            assert(reads(*lookup, ROUTING_VARIABLE@, raw@));
            match checked_routing(parsed) {
                Ok(policy) => Ok(Some(policy)),
                Err(error) => Err(error),
            }
        },
    }
}

/// What a System One vendor is reached by.
#[derive(Debug, PartialEq, Eq)]
pub struct SystemOneSettings {
    pub api_key: String,
    pub base_url: String,
    pub model: String,
}

/// A setting reads as a text, or is unset and a default stands for it.
pub open spec fn reads_or<F: Fn(&str) -> Option<String>>(
    lookup: F,
    name: Seq<char>,
    default: Seq<char>,
    text: Seq<char>,
) -> bool {
    ||| reads(lookup, name, text)
    ||| is_unset(lookup, name) && text == default
}

fn env_or<F: Fn(&str) -> Option<String>>(lookup: &F, name: &str, default: &str) -> (value: String)
    requires
        forall|key: &str| call_requires(*lookup, (key,)),
    ensures
        reads_or(*lookup, name@, default@, value@),
{
    match env(lookup, name) {
        Some(value) => value,
        None => default.to_owned(),
    }
}

/// The vendor is optional: without a key there are no settings and the class is not served.
pub fn type_safe_ai<F: Fn(&str) -> Option<String>>(lookup: &F) -> (settings: Option<SystemOneSettings>)
    requires
        forall|key: &str| call_requires(*lookup, (key,)),
    ensures
        (match settings {
            None => is_unset(*lookup, "TYPESAFE_AI_API_KEY"@),
            Some(settings) => {
                &&& reads(*lookup, "TYPESAFE_AI_API_KEY"@, settings.api_key@)
                &&& reads_or(
                    *lookup,
                    "TYPESAFE_AI_BASE_URL"@,
                    DEFAULT_SYSTEM_ONE_BASE_URL@,
                    settings.base_url@,
                )
                &&& reads_or(
                    *lookup,
                    "TYPESAFE_AI_MODEL"@,
                    DEFAULT_SYSTEM_ONE_MODEL@,
                    settings.model@,
                )
            },
        }),
{
    match env(lookup, "TYPESAFE_AI_API_KEY") {
        None => None,
        Some(api_key) => Some(
            SystemOneSettings {
                api_key,
                base_url: env_or(lookup, "TYPESAFE_AI_BASE_URL", DEFAULT_SYSTEM_ONE_BASE_URL),
                model: env_or(lookup, "TYPESAFE_AI_MODEL", DEFAULT_SYSTEM_ONE_MODEL),
            },
        ),
    }
}

/// A rejected key is a deployment mistake and stops the start, by the name of its variable; a provider that
/// could not be asked leaves a warning and lets the service come up.
pub fn start_with_key(variable: &str, checked: Result<(), KeyCheck>) -> (start: Result<
    Option<String>,
    String,
>)
    ensures
        (match checked {
            Ok(()) => start matches Ok(None),
            Err(KeyCheck::Rejected) => start matches Err(error) && error@ == "the provider rejected "@
                + variable@,
            Err(KeyCheck::Unreachable(reason)) => start matches Ok(Some(warning)) && warning@
                == "could not verify "@ + variable@ + " at startup, continuing: "@ + reason@,
        }),
{
    match checked {
        Ok(()) => Ok(None),
        Err(KeyCheck::Rejected) => Err(cat2("the provider rejected ", variable)),
        Err(KeyCheck::Unreachable(reason)) => Ok(
            Some(
                cat2(
                    cat3("could not verify ", variable, " at startup, continuing: ").as_str(),
                    reason.as_str(),
                ),
            ),
        ),
    }
}

/// A routing policy is taken exactly where it is a JSON object, and then unchanged.
pub proof fn law_a_routing_policy_is_any_object(parsed: Result<JsonView, Seq<char>>)
    ensures
        routing_of(parsed) is Ok <==> (parsed matches Ok(json) && json is Object),
        routing_of(parsed) matches Ok(policy) ==> parsed == Ok::<JsonView, Seq<char>>(policy),
        parsed matches Err(error) ==> routing_of(parsed) == Err::<JsonView, Seq<char>>(
            "LLM_PROVIDER_ROUTING_JSON"@ + " is not valid JSON: "@ + error,
        ),
        parsed matches Ok(json) ==> (json !is Object ==> routing_of(parsed) == Err::<JsonView, Seq<char>>(
            "LLM_PROVIDER_ROUTING_JSON"@ + " must be a JSON object"@,
        )),
{
}

/// A setting reads as what it holds without the white space around it, and a default stands for it only where it is not
/// set or is blank.
pub proof fn law_a_setting_reads_as_it_was_set<F: Fn(&str) -> Option<String>>(
    lookup: F,
    name: Seq<char>,
    default: Seq<char>,
    value: String,
    text: Seq<char>,
)
    ensures
        answers(lookup, name, Some(value)) && trimmed(value@).len() > 0 ==> reads(lookup, name, trimmed(value@)),
        answers(lookup, name, Some(value)) && trimmed(value@).len() == 0 ==> is_unset(lookup, name),
        answers(lookup, name, None) ==> is_unset(lookup, name),
        reads(lookup, name, text) ==> text.len() > 0,
        reads(lookup, name, text) ==> reads_or(lookup, name, default, text),
        is_unset(lookup, name) ==> reads_or(lookup, name, default, default),
        reads_or(lookup, name, default, text) ==> reads(lookup, name, text) || (text == default && is_unset(
            lookup,
            name,
        )),
{
}

/// The settings that stand where an operator says nothing.
pub proof fn law_what_stands_where_nothing_is_set()
    ensures
        DEFAULT_COMPLETION_BASE_URL@ == "https://openrouter.ai/api/v1"@,
        DEFAULT_SYSTEM_ONE_BASE_URL@ == "https://api.typesafe.ai"@,
        DEFAULT_SYSTEM_ONE_MODEL@ == "jev-1.13.0"@,
        COMPLETION_REQUEST_TIMEOUT == 60,
        PARTITION_MAINTENANCE_INTERVAL == 3_600,
{
}

} // verus!
