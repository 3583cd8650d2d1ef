//! What goes to a completion provider and what is read of its reply.

use llm_tools::json::{Json, Number};
use llm_tools::llm_router::adapters::openai_compatible::{
    complete, read_completion, request_body, OpenAiCompatible,
};
use llm_tools::llm_router::provider::{
    CallError, FinishReason, Prompt, QualityTier, ResponseFormat, Sampling,
};

fn value(read: serde_json::Value) -> Json {
    match read {
        serde_json::Value::Null => Json::Null,
        serde_json::Value::Bool(b) => Json::Bool(b),
        serde_json::Value::Number(n) => Json::Number(if let Some(n) = n.as_u64() {
            Number::PosInt(n)
        } else if let Some(n) = n.as_i64() {
            Number::NegInt(n)
        } else {
            Number::Float(n.as_f64().unwrap().to_bits())
        }),
        serde_json::Value::String(text) => Json::Text(text),
        serde_json::Value::Array(items) => Json::Array(items.into_iter().map(value).collect()),
        serde_json::Value::Object(entries) => {
            Json::Object(entries.into_iter().map(|(k, v)| (k, value(v))).collect())
        }
    }
}

fn json(text: &str) -> Json {
    value(serde_json::from_str(text).unwrap())
}

fn at<'a>(json: &'a Json, path: &[&str]) -> &'a Json {
    path.iter().fold(json, |json, step| match json {
        Json::Array(items) => &items[step.parse::<usize>().unwrap()],
        other => other.get(step).unwrap(),
    })
}

fn prompt(tier: QualityTier) -> Prompt {
    Prompt {
        tier,
        system: "You label pages.".to_owned(),
        user: "https://example.com".to_owned(),
        sampling: Sampling::default(),
    }
}

#[test]
fn cheap_tiers_turn_reasoning_off() {
    let body = request_body("deepseek/deepseek-v4-flash", &prompt(QualityTier::Low), false, None);

    assert_eq!(*at(&body, &["reasoning", "effort"]), json("\"none\""));
    assert_eq!(*at(&body, &["model"]), json("\"deepseek/deepseek-v4-flash\""));
    assert_eq!(*at(&body, &["messages", "0", "role"]), json("\"system\""));
    assert_eq!(*at(&body, &["messages", "1", "content"]), json("\"https://example.com\""));
}

#[test]
fn the_high_tier_keeps_reasoning() {
    let body = request_body("z-ai/glm-5", &prompt(QualityTier::High), true, None);

    assert_eq!(body.get("reasoning"), None);
}

#[test]
fn without_a_system_prompt_only_the_user_message_is_sent() {
    let body = request_body(
        "deepseek/deepseek-v4-flash",
        &Prompt { system: String::new(), ..prompt(QualityTier::Low) },
        false,
        None,
    );

    let Json::Array(messages) = at(&body, &["messages"]) else {
        panic!("messages are a list");
    };
    assert_eq!(messages.len(), 1);
    assert_eq!(*at(&body, &["messages", "0", "role"]), json("\"user\""));
}

#[test]
fn settings_the_caller_left_unset_are_not_sent_at_all() {
    let body = request_body("deepseek/deepseek-v4-flash", &prompt(QualityTier::Low), false, None);

    for field in [
        "temperature",
        "top_p",
        "max_tokens",
        "stop",
        "frequency_penalty",
        "presence_penalty",
        "seed",
        "logit_bias",
        "logprobs",
        "top_logprobs",
        "response_format",
    ] {
        assert_eq!(body.get(field), None, "{field} was sent without being set");
    }
}

#[test]
fn every_openai_setting_the_caller_sets_is_passed_through() {
    let sampling = Sampling {
        temperature: Some(0.2f64.to_bits()),
        top_p: Some(0.9f64.to_bits()),
        max_tokens: Some(300),
        stop: vec!["\n\n".to_owned()],
        frequency_penalty: Some(0.5f64.to_bits()),
        presence_penalty: Some((-0.5f64).to_bits()),
        seed: Some(42),
        logit_bias: vec![("1234".to_owned(), (-100.0f64).to_bits())],
        logprobs: Some(true),
        top_logprobs: Some(3),
        response_format: Some(ResponseFormat::JsonObject),
    };

    let body = request_body(
        "deepseek/deepseek-v4-flash",
        &Prompt { sampling, ..prompt(QualityTier::Low) },
        false,
        None,
    );

    assert_eq!(*at(&body, &["temperature"]), json("0.2"));
    assert_eq!(*at(&body, &["top_p"]), json("0.9"));
    assert_eq!(*at(&body, &["max_tokens"]), json("300"));
    assert_eq!(*at(&body, &["stop"]), json(r#"["\n\n"]"#));
    assert_eq!(*at(&body, &["frequency_penalty"]), json("0.5"));
    assert_eq!(*at(&body, &["presence_penalty"]), json("-0.5"));
    assert_eq!(*at(&body, &["seed"]), json("42"));
    assert_eq!(*at(&body, &["logit_bias"]), json(r#"{"1234": -100.0}"#));
    assert_eq!(*at(&body, &["logprobs"]), json("true"));
    assert_eq!(*at(&body, &["top_logprobs"]), json("3"));
    assert_eq!(*at(&body, &["response_format"]), json(r#"{"type": "json_object"}"#));
}

fn with_format(format: ResponseFormat) -> Json {
    request_body(
        "deepseek/deepseek-v4-flash",
        &Prompt {
            sampling: Sampling { response_format: Some(format), ..Sampling::default() },
            ..prompt(QualityTier::Low)
        },
        false,
        None,
    )
}

#[test]
fn a_response_format_we_do_not_know_is_not_sent() {
    assert_eq!(with_format(ResponseFormat::Unknown(99)).get("response_format"), None);
}

#[test]
fn a_response_format_the_caller_left_unspecified_is_not_sent() {
    assert_eq!(with_format(ResponseFormat::Unspecified).get("response_format"), None);
}

#[test]
fn a_reply_yields_its_content_and_token_counts() {
    let body = json(
        r#"{
            "choices": [{"message": {"content": "docs"}, "finish_reason": "stop"}],
            "usage": {"prompt_tokens": 10, "completion_tokens": 2}
        }"#,
    );

    let completion = read_completion(&body).unwrap();

    assert_eq!(completion.content, "docs");
    assert_eq!(completion.tokens_in, 10);
    assert_eq!(completion.tokens_out, 2);
    assert_eq!(completion.finish_reason, FinishReason::Stop);
    assert_eq!(completion.reply, body);
}

#[test]
fn a_choice_that_reports_an_error_is_not_an_answer_however_much_text_it_carries() {
    let body = json(
        r#"{
            "choices": [{
                "message": {"content": "{\"tool_call\":null"},
                "finish_reason": "error",
                "error": {"code": 429, "message": "rate limit"}
            }]
        }"#,
    );

    let error = read_completion(&body).expect_err("a cut-off generation is not a completion");

    let CallError::WorthRetrying(detail) = error else {
        panic!("a provider that gave up partway is worth asking again: {error:?}");
    };
    assert!(detail.contains("rate limit") && detail.contains("429"), "{detail}");
}

#[test]
fn a_choice_carrying_an_error_object_alone_is_still_not_an_answer() {
    let body = json(
        r#"{
            "choices": [{
                "message": {"content": "partial"},
                "error": {"message": "upstream closed the connection"}
            }]
        }"#,
    );

    assert!(matches!(read_completion(&body), Err(CallError::WorthRetrying(_))));
}

#[test]
fn a_finish_reason_we_do_not_know_is_reported_as_unspecified() {
    let body = json(
        r#"{
            "choices": [{"message": {"content": "docs"}, "finish_reason": "eos"}],
            "usage": {"prompt_tokens": 10, "completion_tokens": 2}
        }"#,
    );

    let completion = read_completion(&body).unwrap();

    assert_eq!(completion.finish_reason, FinishReason::Unspecified);
}

#[test]
fn a_reply_spent_entirely_on_reasoning_names_reasoning_and_is_not_retried() {
    let body = json(
        r#"{
            "choices": [{"message": {"content": ""}, "finish_reason": "length"}],
            "usage": {
                "prompt_tokens": 10,
                "completion_tokens": 300,
                "completion_tokens_details": {"reasoning_tokens": 300}
            }
        }"#,
    );

    let error = read_completion(&body).unwrap_err();

    let CallError::Final(message) = error else {
        panic!("a budget spent on hidden reasoning is a config fault, not a blip");
    };
    assert!(message.contains("reasoning"), "{message}");
}

#[test]
fn an_empty_reply_without_reasoning_is_worth_retrying() {
    let body = json(
        r#"{
            "choices": [{"message": {"content": ""}, "finish_reason": "stop"}],
            "usage": {"prompt_tokens": 10, "completion_tokens": 0}
        }"#,
    );

    assert!(matches!(read_completion(&body).unwrap_err(), CallError::WorthRetrying(_)));
}

#[test]
fn a_body_without_choices_is_worth_retrying() {
    assert!(matches!(
        read_completion(&json(r#"{"error": {"message": "upstream hiccup"}}"#)).unwrap_err(),
        CallError::WorthRetrying(_)
    ));
}

fn opaque_operator_policy() -> Json {
    json(r#"{"an_operator_chosen_field": "an_operator_chosen_value", "nested": {"k": 1}}"#)
}

#[test]
fn without_a_routing_policy_the_body_carries_no_provider_field() {
    let body = request_body("deepseek/deepseek-v4-flash", &prompt(QualityTier::Low), false, None);

    assert_eq!(body.get("provider"), None);
}

#[test]
fn a_configured_routing_policy_is_forwarded_as_the_provider_field_verbatim() {
    let policy = opaque_operator_policy();

    let body = request_body(
        "deepseek/deepseek-v4-flash",
        &prompt(QualityTier::Low),
        false,
        Some(&policy),
    );

    assert_eq!(*at(&body, &["provider"]), policy);
}

#[test]
fn a_server_fault_from_the_provider_is_worth_retrying() {
    assert!(matches!(complete(502, Ok(json("{}"))), Err(CallError::WorthRetrying(_))));
}

#[test]
fn a_call_the_provider_rejects_is_not_retried() {
    assert!(matches!(complete(400, Ok(json("{}"))), Err(CallError::Final(_))));
}

#[test]
fn a_call_is_sent_to_the_paths_of_the_provider() {
    let adapter = OpenAiCompatible::new("https://openrouter.ai/api/v1/", "test-key".to_owned(), None);
    assert_eq!(adapter.completions_url(), "https://openrouter.ai/api/v1/chat/completions");
    assert_eq!(adapter.key_url(), "https://openrouter.ai/api/v1/key");
}

#[test]
fn a_call_carries_the_key_and_the_settings_and_returns_the_whole_reply() {
    let reply = || {
        json(
            r#"{
                "choices": [{"message": {"content": "docs"}, "finish_reason": "stop"}],
                "usage": {"prompt_tokens": 10, "completion_tokens": 2}
            }"#,
        )
    };
    let adapter = OpenAiCompatible::new("http://127.0.0.1:9/", "test-key".to_owned(), None);
    assert_eq!(adapter.api_key, "test-key");
    let body = request_body("deepseek/deepseek-v4-flash", &prompt(QualityTier::Low), false, None);
    assert_eq!(*at(&body, &["model"]), json("\"deepseek/deepseek-v4-flash\""));
    assert_eq!(*at(&body, &["reasoning", "effort"]), json("\"none\""));

    let completion = complete(200, Ok(reply())).unwrap();

    assert_eq!(completion.content, "docs");
    assert_eq!(completion.reply, reply());
}

#[test]
fn without_a_routing_policy_the_wire_body_is_unchanged_from_today() {
    let adapter = OpenAiCompatible::new("http://127.0.0.1:9/", "test-key".to_owned(), None);
    let body = request_body(
        "deepseek/deepseek-v4-flash",
        &prompt(QualityTier::Low),
        false,
        adapter.provider_routing.as_ref(),
    );
    assert_eq!(body.get("provider"), None);
}

#[test]
fn a_configured_routing_policy_reaches_the_provider_byte_for_byte() {
    let policy = opaque_operator_policy();
    let adapter =
        OpenAiCompatible::new("http://127.0.0.1:9/", "test-key".to_owned(), Some(policy.clone()));
    let body = request_body(
        "deepseek/deepseek-v4-flash",
        &prompt(QualityTier::Low),
        false,
        adapter.provider_routing.as_ref(),
    );
    assert_eq!(*at(&body, &["provider"]), policy);
}
