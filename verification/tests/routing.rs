//! Completions: their settings, their models, and what is told and recorded of them.

use llm_tools::json::Json;
use llm_tools::llm_router::adapters::system_one;
use llm_tools::llm_router::adapters::KeyCheck;
use llm_tools::llm_router::audit::Outcome;
use llm_tools::llm_router::provider::{
    CallError, Completion, FinishReason, Prompt, QualityTier, ResponseFormat, Sampling,
};
use llm_tools::llm_router::router::{Answer, Failed, Route, Step};
use llm_tools::llm_router::service::{
    begin, begin_within, finish, reply, validate_sampling, CompleteRequest, MAX_LOGIT_BIAS_ENTRIES, MAX_STOP_SEQUENCES,
    MAX_STOP_SEQUENCE_BYTES, MAX_TOP_LOGPROBS, MAX_TOTAL_STOP_BYTES,
};
use llm_tools::llm_router::settings::{
    provider_routing, required, start_with_key, type_safe_ai, COMPLETION_REQUEST_TIMEOUT, DEFAULT_SYSTEM_ONE_MODEL,
};
use llm_tools::llm_router::tiers::Tiers;
use llm_tools::llm_router::wire::{
    known_tier, response_from, tier_contracts, LimitTable, ReasoningMode, TierLimits, TierValue,
};
use llm_tools::rpc::ErrorCode;

fn configured(name: &str) -> Option<String> {
    match name {
        "LLM_LOW_PRIMARY" => Some("deepseek/deepseek-v4-flash".to_owned()),
        "LLM_LOW_BACKUP" => Some("z-ai/glm-4.7-flash".to_owned()),
        "LLM_MEDIUM_PRIMARY" => Some("deepseek/deepseek-v3.2".to_owned()),
        "LLM_MEDIUM_BACKUP" => Some("z-ai/glm-4.7".to_owned()),
        "LLM_HIGH_PRIMARY" => Some("z-ai/glm-5".to_owned()),
        "LLM_HIGH_BACKUP" => Some("deepseek/deepseek-r1-0528".to_owned()),
        _ => None,
    }
}

#[test]
fn every_tier_gets_its_primary_and_backup() {
    let tiers = Tiers::from_vars(configured).unwrap();

    let low = tiers.models(QualityTier::Low).unwrap();
    assert_eq!(low.primary, "deepseek/deepseek-v4-flash");
    assert_eq!(low.backup, "z-ai/glm-4.7-flash");
    assert_eq!(tiers.models(QualityTier::High).unwrap().primary, "z-ai/glm-5");
}

#[test]
fn a_tier_without_models_is_not_served() {
    let tiers = Tiers::from_vars(configured).unwrap();

    assert!(tiers.models(QualityTier::Unspecified).is_none());
}

#[test]
fn missing_variable_is_named_in_the_error() {
    let without_high_backup = |name: &str| match name {
        "LLM_HIGH_BACKUP" => None,
        other => configured(other),
    };

    let error = Tiers::from_vars(without_high_backup).unwrap_err();

    assert!(error.contains("LLM_HIGH_BACKUP"), "{error}");
}

fn table() -> LimitTable {
    let limits = |output, reasoning| {
        Some(TierLimits { max_input_tokens: 100_000, max_output_tokens: output, reasoning })
    };
    LimitTable {
        low: limits(4_000, ReasoningMode::Off),
        medium: limits(8_000, ReasoningMode::Off),
        high: limits(16_000, ReasoningMode::On),
    }
}

const SERVED: [QualityTier; 3] = [QualityTier::Low, QualityTier::Medium, QualityTier::High];

#[test]
fn the_published_contract_matches_the_tier_limits() {
    let formats = vec![ResponseFormat::Text, ResponseFormat::JsonObject];

    let contracts = tier_contracts(&table(), &formats);

    assert_eq!(contracts.len(), SERVED.len());
    for (contract, tier) in contracts.iter().zip(SERVED) {
        let published = table().limits(tier).unwrap();
        assert_eq!(contract.tier, tier);
        assert_eq!(contract.max_input_tokens, published.max_input_tokens);
        assert_eq!(contract.max_output_tokens, published.max_output_tokens);
        assert_eq!(contract.reasoning, published.reasoning);
        assert_eq!(contract.response_formats.len(), formats.len());
    }
}

#[test]
fn the_high_tier_is_published_as_the_reasoning_one() {
    let contracts = tier_contracts(&table(), &vec![ResponseFormat::Text]);

    let high = contracts.iter().find(|contract| contract.tier == QualityTier::High).unwrap();

    assert_eq!(high.reasoning, ReasoningMode::On);
    assert!(table().reasoning_enabled(QualityTier::High));
    assert!(!table().reasoning_enabled(QualityTier::Low));
}

#[test]
fn an_answer_carries_the_model_and_the_counts_back_to_the_caller() {
    let answer = Answer {
        completion: Completion {
            content: "docs".to_owned(),
            tokens_in: 10,
            tokens_out: 2,
            finish_reason: FinishReason::Stop,
            reply: Json::Object(Vec::new()),
        },
        model_used: "z-ai/glm-4.7-flash".to_owned(),
        used_backup: true,
    };

    let response = response_from(answer);

    assert_eq!(response.content, "docs");
    assert_eq!(response.model_used, "z-ai/glm-4.7-flash");
    assert_eq!(response.tokens_in, 10);
    assert_eq!(response.tokens_out, 2);
    assert!(response.used_backup);
    assert_eq!(response.finish_reason, FinishReason::Stop);
}

#[test]
fn a_tier_the_caller_did_not_set_reads_as_unspecified() {
    assert_eq!(known_tier(TierValue::Known(QualityTier::Low)), QualityTier::Low);
    assert_eq!(known_tier(TierValue::Known(QualityTier::Unspecified)), QualityTier::Unspecified);
    assert_eq!(known_tier(TierValue::Unknown(99)), QualityTier::Unspecified);
}

#[test]
fn completion_keeps_its_old_generous_timeout_unrelated_to_decides() {
    assert_eq!(COMPLETION_REQUEST_TIMEOUT, 60);
    assert_ne!(COMPLETION_REQUEST_TIMEOUT * 1000, system_one::REQUEST_TIMEOUT);
}

#[test]
fn a_deployment_without_a_key_serves_no_decisions_and_still_starts() {
    assert!(type_safe_ai(&|_: &str| None).is_none());
}

#[test]
fn a_key_of_nothing_but_whitespace_counts_as_unset() {
    let blank = |name: &str| match name {
        "TYPESAFE_AI_API_KEY" => Some("   ".to_owned()),
        _ => None,
    };

    assert!(type_safe_ai(&blank).is_none());
}

#[test]
fn a_configured_deployment_serves_the_model_it_names() {
    let configured = |name: &str| match name {
        "TYPESAFE_AI_API_KEY" => Some("test-key".to_owned()),
        "TYPESAFE_AI_BASE_URL" => Some("http://127.0.0.1:1".to_owned()),
        "TYPESAFE_AI_MODEL" => Some("jev-1.13.0".to_owned()),
        _ => None,
    };

    let settings = type_safe_ai(&configured).unwrap();

    assert_eq!(settings.model, "jev-1.13.0");
    assert_eq!(settings.base_url, "http://127.0.0.1:1");
}

#[test]
fn a_base_url_or_model_set_to_blank_falls_back_to_the_default() {
    let blank = |name: &str| match name {
        "TYPESAFE_AI_API_KEY" => Some("test-key".to_owned()),
        "TYPESAFE_AI_MODEL" => Some("  ".to_owned()),
        _ => None,
    };

    let settings = type_safe_ai(&blank).unwrap();

    assert_eq!(settings.model, DEFAULT_SYSTEM_ONE_MODEL);
    assert_eq!(settings.base_url, "https://api.typesafe.ai");
}

#[test]
fn a_value_with_whitespace_around_it_is_trimmed_before_it_is_used() {
    let padded = |name: &str| match name {
        "TYPESAFE_AI_API_KEY" => Some(" test-key ".to_owned()),
        "TYPESAFE_AI_BASE_URL" => Some("  http://127.0.0.1:1  ".to_owned()),
        "TYPESAFE_AI_MODEL" => Some("  jev-1.13.0\n".to_owned()),
        _ => None,
    };

    let settings = type_safe_ai(&padded).unwrap();

    assert_eq!(settings.api_key, "test-key");
    assert_eq!(settings.base_url, "http://127.0.0.1:1");
    assert_eq!(settings.model, "jev-1.13.0");
}

#[test]
fn a_key_the_provider_rejects_stops_the_service_from_starting() {
    let error = start_with_key("TYPESAFE_AI_API_KEY", Err(KeyCheck::Rejected)).unwrap_err();

    assert!(error.contains("TYPESAFE_AI_API_KEY"), "{error}");
}

#[test]
fn a_provider_we_cannot_reach_at_startup_does_not_stop_the_service() {
    let warning =
        start_with_key("TYPESAFE_AI_API_KEY", Err(KeyCheck::Unreachable("no route".to_owned()))).unwrap();

    assert_eq!(
        warning,
        Some("could not verify TYPESAFE_AI_API_KEY at startup, continuing: no route".to_owned())
    );
    assert_eq!(start_with_key("TYPESAFE_AI_API_KEY", Ok(())), Ok(None));
}

#[test]
fn a_setting_that_is_required_is_named_where_it_is_missing() {
    assert_eq!(
        required(&|_: &str| Some(" \t".to_owned()), "DATABASE_URL"),
        Err("DATABASE_URL is not set".to_owned())
    );
}

#[test]
fn no_routing_policy_set_leaves_completion_unaffected() {
    assert_eq!(provider_routing(&|_: &str| None).unwrap(), None);
}

fn routing_json(raw: &'static str) -> impl Fn(&str) -> Option<String> {
    move |name: &str| match name {
        "LLM_PROVIDER_ROUTING_JSON" => Some(raw.to_owned()),
        _ => None,
    }
}

#[test]
fn a_routing_policy_that_is_a_json_object_is_read_through() {
    let configured = routing_json(r#"{"an_operator_chosen_field":"an_operator_chosen_value"}"#);

    let parsed = provider_routing(&configured).unwrap().unwrap();

    assert_eq!(
        parsed,
        Json::Object(vec![(
            "an_operator_chosen_field".to_owned(),
            Json::Text("an_operator_chosen_value".to_owned())
        )])
    );
}

#[test]
fn a_routing_policy_that_is_not_valid_json_stops_the_service_from_starting() {
    let Err(error) = provider_routing(&routing_json("not json")) else {
        panic!("malformed routing JSON is a deployment mistake worth failing loudly");
    };
    assert!(error.contains("LLM_PROVIDER_ROUTING_JSON"), "{error}");
}

#[test]
fn a_routing_policy_that_is_not_a_json_object_stops_the_service_from_starting() {
    let Err(error) = provider_routing(&routing_json("[1,2,3]")) else {
        panic!("a routing policy that is not an object is a deployment mistake worth failing loudly");
    };
    assert!(error.contains("LLM_PROVIDER_ROUTING_JSON"), "{error}");
}

fn tiers() -> Tiers {
    Tiers::from_vars(|name: &str| match name {
        "LLM_LOW_PRIMARY" => Some("deepseek/deepseek-v4-flash".to_owned()),
        "LLM_LOW_BACKUP" => Some("z-ai/glm-4.7-flash".to_owned()),
        _ => Some(format!("model-for-{name}")),
    })
    .unwrap()
}

fn answered(content: &str) -> Result<Completion, CallError> {
    Ok(Completion {
        content: content.to_owned(),
        tokens_in: 10,
        tokens_out: 2,
        finish_reason: FinishReason::Stop,
        reply: Json::Object(vec![("content".to_owned(), Json::Text(content.to_owned()))]),
    })
}

/// Runs a prompt on its tier, asking a scripted provider.
fn run(tier: QualityTier, script: Vec<Result<Completion, CallError>>) -> (Result<Answer, Failed>, Vec<String>) {
    let mut asked = Vec::new();
    let mut route = match Route::start(&tiers(), tier) {
        Ok(route) => route,
        Err(failed) => return (Err(failed), asked),
    };
    for answer in script {
        asked.push(route.model().to_owned());
        match route.answered(answer) {
            Step::Answered(answer) => return (Ok(answer), asked),
            Step::GaveUp(failed) => return (Err(failed), asked),
            Step::AskBackup(next) => route = next,
        }
    }
    panic!("the script ended before the call did");
}

#[test]
fn a_working_primary_is_the_only_model_asked() {
    let (answer, asked) = run(QualityTier::Low, vec![answered("docs")]);

    let answer = answer.unwrap();
    assert_eq!(answer.completion.content, "docs");
    assert_eq!(answer.model_used, "deepseek/deepseek-v4-flash");
    assert!(!answer.used_backup);
    assert_eq!(asked, ["deepseek/deepseek-v4-flash"]);
}

#[test]
fn a_retryable_primary_failure_moves_to_the_backup_vendor() {
    let (answer, asked) = run(
        QualityTier::Low,
        vec![
            Err(CallError::WorthRetrying("the provider answered 429".to_owned())),
            answered("docs"),
        ],
    );

    let answer = answer.unwrap();
    assert_eq!(answer.model_used, "z-ai/glm-4.7-flash");
    assert!(answer.used_backup);
    assert_eq!(asked, ["deepseek/deepseek-v4-flash", "z-ai/glm-4.7-flash"]);
}

#[test]
fn a_rejected_request_never_reaches_the_backup() {
    for rejected in [
        CallError::Final("the provider answered 400".to_owned()),
        CallError::Refused("the provider answered 422".to_owned()),
    ] {
        let (failed, asked) = run(QualityTier::Low, vec![Err(rejected)]);

        let failed = failed.unwrap_err();
        assert!(
            matches!(failed.error, CallError::Final(_) | CallError::Refused(_)),
            "{:?} is reported as it arrived",
            failed.error
        );
        assert_eq!(failed.model_used, "deepseek/deepseek-v4-flash");
        assert!(!failed.used_backup);
        assert_eq!(asked, ["deepseek/deepseek-v4-flash"]);
    }
}

#[test]
fn when_both_models_fail_the_backup_failure_is_reported() {
    let (failed, _) = run(
        QualityTier::Low,
        vec![
            Err(CallError::WorthRetrying("primary timed out".to_owned())),
            Err(CallError::WorthRetrying("backup timed out".to_owned())),
        ],
    );

    let failed = failed.unwrap_err();
    let CallError::WorthRetrying(message) = &failed.error else {
        panic!("both vendors failing is still a transient fault");
    };
    assert!(message.contains("backup timed out"), "{message}");
    assert_eq!(failed.model_used, "z-ai/glm-4.7-flash");
    assert!(failed.used_backup);
}

#[test]
fn an_unset_tier_asks_no_model() {
    let (failed, asked) = run(QualityTier::Unspecified, vec![answered("docs")]);

    let failed = failed.unwrap_err();
    assert!(matches!(failed.error, CallError::Final(_)));
    assert!(failed.model_used.is_empty());
    assert!(asked.is_empty());
}

fn asking(tier: QualityTier, user_prompt: &str) -> CompleteRequest {
    CompleteRequest {
        tier: TierValue::Known(tier),
        system_prompt: "You label pages.".to_owned(),
        user_prompt: user_prompt.to_owned(),
        sampling: Sampling::default(),
    }
}

fn fitted() -> Sampling {
    Sampling { max_tokens: Some(4_000), ..Sampling::default() }
}

#[test]
fn an_answered_call_comes_back_with_its_model_and_is_recorded_with_both_payloads() {
    let prompt = begin(asking(QualityTier::Low, "https://example.com"), Some(Ok(fitted()))).unwrap();
    let (answer, _) = run(QualityTier::Low, vec![answered("docs")]);

    let (recorded, told) = finish(&prompt, false, None, 431, answer);

    let response = told.unwrap();
    assert_eq!(response.content, "docs");
    assert_eq!(response.model_used, "deepseek/deepseek-v4-flash");
    assert!(!response.used_backup);
    assert_eq!(recorded.outcome, Outcome::Answered);
    assert_eq!(recorded.model_used, "deepseek/deepseek-v4-flash");
    assert_eq!(recorded.tokens_in, 10);
    assert_eq!(recorded.tokens_out, 2);
    assert_eq!(recorded.latency_ms, 431);
    assert_eq!(recorded.sent.str_at("model"), Some("deepseek/deepseek-v4-flash"));
    assert_eq!(recorded.received.str_at("content"), Some("docs"));
}

#[test]
fn a_call_that_could_not_be_recorded_is_answered_all_the_same() {
    let prompt = begin(asking(QualityTier::Low, "https://example.com"), Some(Ok(fitted()))).unwrap();
    let told = |replies| finish(&prompt, false, None, 1, run(QualityTier::Low, replies).0).1;
    let timed_out = || Err(CallError::WorthRetrying("timed out".to_owned()));

    let (answer, complaint) = reply(told(vec![answered("docs")]), Err("the log is down".to_owned()));
    assert_eq!(answer, told(vec![answered("docs")]));
    assert_eq!(complaint.as_deref(), Some("could not record an llm call: the log is down"));

    let failed = || told(vec![timed_out(), timed_out()]);
    let (recorded, silence) = reply(failed(), Ok(()));
    let (unrecorded, complaint) = reply(failed(), Err("the log is down".to_owned()));
    assert_eq!(recorded, unrecorded);
    assert_eq!(recorded.unwrap_err().code, ErrorCode::Unavailable);
    assert_eq!(silence, None);
    assert!(complaint.is_some());
}

#[test]
fn a_call_no_model_could_answer_is_reported_and_recorded_as_failed() {
    let prompt = begin(asking(QualityTier::Low, "https://example.com"), Some(Ok(fitted()))).unwrap();
    let (failed, _) = run(
        QualityTier::Low,
        vec![
            Err(CallError::WorthRetrying("primary timed out".to_owned())),
            Err(CallError::WorthRetrying("backup timed out".to_owned())),
        ],
    );

    let (recorded, told) = finish(&prompt, false, None, u64::MAX, failed);

    let error = told.unwrap_err();
    assert_eq!(error.code, ErrorCode::Unavailable);
    let reported = format!("{error:?}");
    assert!(reported.contains("no model"), "{reported}");
    assert!(
        !reported.contains("backup timed out"),
        "the provider's own words must stay in the log: {reported}"
    );
    assert_eq!(recorded.outcome, Outcome::Failed);
    assert_eq!(recorded.model_used, "z-ai/glm-4.7-flash");
    assert_eq!(recorded.tokens_out, 0);
    assert_eq!(recorded.latency_ms, i32::MAX);
    assert!(recorded.received.str_at("error").unwrap().contains("backup timed out"));
}

#[test]
fn a_tier_the_router_does_not_serve_is_refused_before_any_model_is_called() {
    let error = begin(asking(QualityTier::Unspecified, "https://example.com"), None).unwrap_err();

    assert_eq!(error.code, ErrorCode::InvalidArgument);
    assert!(error.message.contains("tier"), "{error:?}");
}

#[test]
fn an_empty_prompt_is_refused_before_any_model_is_called() {
    let error = begin(asking(QualityTier::Low, ""), Some(Ok(fitted()))).unwrap_err();

    assert!(error.message.contains("user_prompt"), "{error:?}");
}

#[test]
fn asking_for_more_output_than_the_tier_allows_is_refused_with_the_limit_named() {
    let allowed = table().limits(QualityTier::Low).unwrap().max_output_tokens;
    let greedy = CompleteRequest {
        sampling: Sampling { max_tokens: Some(allowed + 1), ..Sampling::default() },
        ..asking(QualityTier::Low, "https://example.com")
    };

    let error = begin_within(greedy, &table()).unwrap_err();

    assert_eq!(error.code, ErrorCode::InvalidArgument);
    assert!(error.message.contains(&allowed.to_string()), "{error:?}");
    let refused = begin(asking(QualityTier::Low, "https://example.com"), Some(Err("too long".to_owned())));
    assert_eq!(refused.unwrap_err().message, "too long");
}

#[test]
fn a_caller_that_names_no_output_limit_gets_the_tier_maximum() {
    let prompt: Prompt =
        begin_within(asking(QualityTier::Low, "https://example.com"), &table()).unwrap();

    assert_eq!(
        prompt.sampling.max_tokens,
        Some(table().limits(QualityTier::Low).unwrap().max_output_tokens)
    );
    assert_eq!(prompt.tier, QualityTier::Low);
    assert_eq!(prompt.system, "You label pages.");
    assert_eq!(prompt.user, "https://example.com");
}

#[test]
fn a_caller_that_asks_for_less_than_the_tier_allows_gets_it() {
    let modest = CompleteRequest {
        sampling: Sampling { max_tokens: Some(16), ..Sampling::default() },
        ..asking(QualityTier::High, "https://example.com")
    };
    let prompt = begin_within(modest, &table()).unwrap();
    assert_eq!(prompt.sampling, Sampling { max_tokens: Some(16), ..Sampling::default() });
}

fn assert_sampling_refused(sampling: Sampling, field: &str) {
    let error = begin(
        CompleteRequest { sampling, ..asking(QualityTier::Low, "https://example.com") },
        Some(Ok(fitted())),
    )
    .unwrap_err();

    assert!(error.message.contains(field), "{error:?}");
}

#[test]
fn temperature_outside_zero_to_two_or_non_finite_is_refused() {
    for temperature in [-0.1, 2.1, f64::NAN, f64::INFINITY] {
        assert_sampling_refused(
            Sampling { temperature: Some(temperature.to_bits()), ..Sampling::default() },
            "temperature",
        );
    }
}

#[test]
fn top_p_outside_zero_to_one_is_refused() {
    for top_p in [-0.1f64, 1.1] {
        assert_sampling_refused(
            Sampling { top_p: Some(top_p.to_bits()), ..Sampling::default() },
            "top_p",
        );
    }
}

#[test]
fn frequency_penalty_outside_minus_two_to_two_is_refused() {
    assert_sampling_refused(
        Sampling { frequency_penalty: Some(2.1f64.to_bits()), ..Sampling::default() },
        "frequency_penalty",
    );
}

#[test]
fn presence_penalty_outside_minus_two_to_two_is_refused() {
    assert_sampling_refused(
        Sampling { presence_penalty: Some((-2.1f64).to_bits()), ..Sampling::default() },
        "presence_penalty",
    );
}

#[test]
fn more_than_four_stop_sequences_are_refused() {
    assert_sampling_refused(
        Sampling { stop: vec!["x".to_owned(); MAX_STOP_SEQUENCES + 1], ..Sampling::default() },
        "stop",
    );
}

#[test]
fn an_individual_stop_sequence_over_the_byte_limit_is_refused() {
    assert_sampling_refused(
        Sampling { stop: vec!["x".repeat(MAX_STOP_SEQUENCE_BYTES + 1)], ..Sampling::default() },
        "stop sequence",
    );
}

#[test]
fn stop_sequences_over_the_total_byte_limit_are_refused() {
    assert_sampling_refused(
        Sampling {
            stop: vec!["x".repeat(MAX_TOTAL_STOP_BYTES / MAX_STOP_SEQUENCES + 1); 4],
            ..Sampling::default()
        },
        "stop sequences",
    );
}

#[test]
fn too_many_logit_bias_entries_are_refused() {
    let logit_bias =
        (0..=MAX_LOGIT_BIAS_ENTRIES).map(|token| (token.to_string(), 0.0f64.to_bits())).collect();
    assert_sampling_refused(Sampling { logit_bias, ..Sampling::default() }, "logit_bias");
}

#[test]
fn logit_bias_values_outside_minus_one_hundred_to_one_hundred_are_refused() {
    assert_sampling_refused(
        Sampling { logit_bias: vec![("42".to_owned(), 100.1f64.to_bits())], ..Sampling::default() },
        "logit_bias value",
    );
}

#[test]
fn top_logprobs_outside_zero_to_twenty_are_refused() {
    for top_logprobs in [-1, MAX_TOP_LOGPROBS + 1] {
        assert_sampling_refused(
            Sampling { top_logprobs: Some(top_logprobs), ..Sampling::default() },
            "top_logprobs",
        );
    }
}

#[test]
fn sampling_values_at_every_boundary_are_accepted() {
    validate_sampling(&Sampling {
        temperature: Some(2.0f64.to_bits()),
        top_p: Some(1.0f64.to_bits()),
        stop: vec!["x".repeat(MAX_TOTAL_STOP_BYTES / MAX_STOP_SEQUENCES); 4],
        frequency_penalty: Some((-2.0f64).to_bits()),
        presence_penalty: Some(2.0f64.to_bits()),
        logit_bias: (0..MAX_LOGIT_BIAS_ENTRIES)
            .map(|token| (token.to_string(), 100.0f64.to_bits()))
            .collect(),
        top_logprobs: Some(MAX_TOP_LOGPROBS),
        ..Sampling::default()
    })
    .unwrap();
}
