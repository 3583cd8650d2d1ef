//! What goes to a System One provider and what is read of its answers.

use llm_tools::json::{Json, Number};
use llm_tools::llm_router::adapters::system_one::answers::{model_card, read_verdict};
use llm_tools::llm_router::adapters::system_one::body::{audit_body, decide_body};
use llm_tools::llm_router::adapters::system_one::{
    answered, decide, failure, models, provider_message, SystemOne, REQUEST_TIMEOUT,
    TOO_LITTLE_TIME_IS_STILL_ONE_ATTEMPT,
};
use llm_tools::llm_router::adapters::{error_for_status, ClientFaults};
use llm_tools::llm_router::decision::{
    ChoiceOption, Decision, Given, Question, QuestionKind, Verdict,
};
use llm_tools::llm_router::provider::CallError;

const MODEL: &str = "jev-latest";

fn value(read: serde_json::Value) -> Json {
    match read {
        serde_json::Value::Null => Json::Null,
        serde_json::Value::Bool(b) => Json::Bool(b),
        serde_json::Value::Number(n) => Json::Number(if let Some(n) = n.as_u64() {
            Number::PosInt(n)
        } else if let Some(n) = n.as_i64() {
            Number::NegInt(n)
        } else {
            Number::Float(n.as_f64().unwrap().to_bits())
        }),
        serde_json::Value::String(text) => Json::Text(text),
        serde_json::Value::Array(items) => Json::Array(items.into_iter().map(value).collect()),
        serde_json::Value::Object(entries) => {
            Json::Object(entries.into_iter().map(|(k, v)| (k, value(v))).collect())
        }
    }
}

fn json(text: &str) -> Json {
    value(serde_json::from_str(text).unwrap())
}

fn double(n: f64) -> Number {
    Number::Float(n.to_bits())
}

fn keys(json: &Json) -> Vec<String> {
    let Json::Object(entries) = json else {
        panic!("an object: {json:?}");
    };
    entries.iter().map(|(key, _)| key.clone()).collect()
}

fn urgency() -> Question {
    Question {
        id: "is_urgent".to_owned(),
        instructions: Json::Text("Does this convey urgency?".to_owned()),
        kind: QuestionKind::Noul {
            when_true: Some("Explicitly time-sensitive".to_owned()),
            when_false: Some("No urgency expressed".to_owned()),
        },
    }
}

fn offer(name: &str, description: Option<&str>) -> ChoiceOption {
    ChoiceOption { name: name.to_owned(), description: description.map(str::to_owned) }
}

fn department() -> Question {
    Question {
        id: "department".to_owned(),
        instructions: Json::Text("Which team should handle this?".to_owned()),
        kind: QuestionKind::Choice {
            options: vec![
                offer("billing", Some("Payments, invoicing, refunds")),
                offer("technical", Some("Bugs, outages, integrations")),
                offer("sales", None),
            ],
        },
    }
}

fn frustration() -> Question {
    Question {
        id: "frustration".to_owned(),
        instructions: Json::Text("How frustrated is the customer?".to_owned()),
        kind: QuestionKind::Score {
            levels: vec!["Calm".to_owned(), "Frustrated".to_owned(), "Very angry".to_owned()],
        },
    }
}

fn decision(questions: Vec<Question>) -> Decision {
    Decision {
        state: Json::Text("Help! My payouts have been failing for 3 days.".to_owned()),
        questions,
    }
}

const ANSWERED: &str = r#"{
    "model": "jev-1.13.0",
    "answers": {
        "is_urgent": {"type": "noul", "noul": 0.92},
        "department": {
            "type": "choice",
            "choice": "billing",
            "probabilities": {"billing": 0.81, "technical": 0.15, "sales": 0.04},
            "confidence": 0.82
        },
        "frustration": {
            "type": "score",
            "score": 1.6,
            "legend": {"0": "Calm", "1": "Frustrated", "2": "Very angry"},
            "probabilities": {"0": 0.1, "1": 0.3, "2": 0.6},
            "confidence": 0.78
        }
    },
    "usage": {"input_tokens": 312, "output_tokens": 48}
}"#;

fn answered_reply() -> Json {
    json(ANSWERED)
}

fn scored_reply(answer: &str) -> Json {
    json(&format!(r#"{{"model": "jev-1.13.0", "answers": {{"frustration": {answer}}}}}"#))
}

fn refused(reply: &Json, questions: Vec<Question>) -> String {
    let CallError::Final(message) = read_verdict(reply, &questions, &json("{}")).unwrap_err() else {
        panic!("a reply this adapter cannot make sense of is a contract fault, not a blip");
    };
    message
}

fn accepted(reply: &Json, questions: Vec<Question>) -> Verdict {
    read_verdict(reply, &questions, &json("{}")).unwrap()
}

#[test]
fn answers_come_back_in_the_order_the_caller_asked() {
    let verdict = accepted(&answered_reply(), vec![frustration(), urgency(), department()]);

    let ids: Vec<&str> = verdict.answers.iter().map(|answer| answer.id.as_str()).collect();
    assert_eq!(ids, ["frustration", "is_urgent", "department"]);
    assert_eq!(verdict.model_used, "jev-1.13.0");
    assert_eq!(verdict.tokens_in, 312);
    assert_eq!(verdict.tokens_out, 48);
    let Given::Score(score) = &verdict.answers[0].answer else {
        panic!("a score question is answered with a score");
    };
    assert_eq!(score.score, double(1.6));
    assert!(score.legend.contains(&(2, "Very angry".to_owned())));
    assert!(score.probabilities.contains(&(2, double(0.6))));
    let Given::Choice(choice) = &verdict.answers[2].answer else {
        panic!("a choice question is answered with a choice");
    };
    assert_eq!(choice.choice, "billing");
    assert!(choice.probabilities.contains(&("billing".to_owned(), double(0.81))));
    assert_eq!(choice.confidence, double(0.82));
}

#[test]
fn a_question_the_provider_left_unanswered_is_named_and_not_retried() {
    let mut read: serde_json::Value = serde_json::from_str(ANSWERED).unwrap();
    read["answers"].as_object_mut().unwrap().remove("department");

    let message = refused(&value(read), vec![urgency(), department(), frustration()]);

    assert!(message.contains("department"), "{message}");
}

#[test]
fn an_answer_the_caller_never_asked_for_is_named_and_not_retried() {
    let message = refused(&answered_reply(), vec![urgency()]);

    assert!(message.contains("department") || message.contains("frustration"), "{message}");
}

#[test]
fn an_answer_of_the_wrong_type_names_the_question() {
    let reply = json(
        r#"{"model": "jev-1.13.0", "answers": {"is_urgent": {"type": "score", "score": 1.0}}}"#,
    );

    let message = refused(&reply, vec![urgency()]);

    assert!(message.contains("is_urgent"), "{message}");
    assert!(message.contains("noul"), "{message}");
}

#[test]
fn a_noul_the_provider_did_not_give_is_never_read_as_a_confident_no() {
    for answered in [
        r#"{"type": "noul"}"#,
        r#"{"type": "noul", "noul": null}"#,
        r#"{"type": "noul", "noul": "0.92"}"#,
    ] {
        let reply = json(&format!(
            r#"{{"model": "jev-1.13.0", "answers": {{"is_urgent": {answered}}}}}"#
        ));

        let message = refused(&reply, vec![urgency()]);

        assert!(message.contains("is_urgent"), "{message}");
        assert!(message.contains("noul"), "{message}");
    }
}

#[test]
fn a_noul_outside_zero_to_one_names_the_question() {
    let reply = json(
        r#"{"model": "jev-1.13.0", "answers": {"is_urgent": {"type": "noul", "noul": 1.4}}}"#,
    );

    assert!(refused(&reply, vec![urgency()]).contains("is_urgent"));
}

#[test]
fn a_score_the_provider_did_not_give_is_never_read_as_the_lowest_level() {
    let message =
        refused(&scored_reply(r#"{"type": "score", "confidence": 0.5}"#), vec![frustration()]);

    assert!(message.contains("frustration"), "{message}");
    assert!(message.contains("score"), "{message}");
}

#[test]
fn a_score_past_the_scale_the_caller_sent_names_the_question_and_the_scale() {
    for off_the_scale in ["47.0", "3.0", "-0.5"] {
        let message = refused(
            &scored_reply(&format!(r#"{{"type": "score", "score": {off_the_scale}}}"#)),
            vec![frustration()],
        );

        assert!(message.contains("frustration"), "{message}");
        assert!(message.contains("0 to 2"), "the scale is named: {message}");
    }
}

#[test]
fn a_score_at_either_end_of_the_scale_is_accepted() {
    for on_the_scale in ["0.0", "2.0"] {
        accepted(
            &scored_reply(&format!(r#"{{"type": "score", "score": {on_the_scale}}}"#)),
            vec![frustration()],
        );
    }
}

#[test]
fn a_choice_the_caller_never_offered_names_the_question() {
    let reply = json(
        r#"{"model": "jev-1.13.0", "answers": {"department": {"type": "choice", "choice": "legal"}}}"#,
    );

    let message = refused(&reply, vec![department()]);

    assert!(message.contains("department"), "{message}");
    assert!(message.contains("legal"), "{message}");
}

#[test]
fn a_probability_for_an_option_that_was_never_offered_names_it() {
    let reply = json(
        r#"{
            "model": "jev-1.13.0",
            "answers": {"department": {
                "type": "choice",
                "choice": "billing",
                "probabilities": {"billing": 0.7, "legal": 0.3}
            }}
        }"#,
    );

    let message = refused(&reply, vec![department()]);

    assert!(message.contains("department"), "{message}");
    assert!(message.contains("legal"), "{message}");
}

#[test]
fn probabilities_that_are_not_an_object_name_the_question_on_either_path() {
    for (answered, question) in [
        (
            json(
                r#"{"model": "jev-1.13.0", "answers": {"department": {
                    "type": "choice", "choice": "billing", "probabilities": 0.5
                }}}"#,
            ),
            department(),
        ),
        (
            scored_reply(r#"{"type": "score", "score": 1.0, "probabilities": 0.5}"#),
            frustration(),
        ),
    ] {
        let message = refused(&answered, vec![question]);

        assert!(message.contains("probabilities"), "{message}");
    }
}

#[test]
fn a_level_past_the_scale_the_caller_sent_names_the_question() {
    let reply = scored_reply(r#"{"type": "score", "score": 1.0, "probabilities": {"3": 0.5}}"#);

    let message = refused(&reply, vec![frustration()]);

    assert!(message.contains("frustration"), "{message}");
    assert!(message.contains("level 3"), "{message}");
}

#[test]
fn a_score_level_that_is_not_a_number_names_the_question() {
    let reply = scored_reply(r#"{"type": "score", "score": 1.0, "probabilities": {"calm": 0.5}}"#);

    assert!(refused(&reply, vec![frustration()]).contains("frustration"));
}

#[test]
fn a_level_written_in_two_ways_is_weighed_once_and_the_last_weight_stands() {
    let reply = scored_reply(
        r#"{"type": "score", "score": 1.0, "probabilities": {"0": 0.1, "01": 0.3, "1": 0.6, "+2": 0.2}}"#,
    );

    let verdict = accepted(&reply, vec![frustration()]);

    let Given::Score(score) = &verdict.answers[0].answer else {
        panic!("a score question is answered with a score");
    };
    let mut weights: Vec<(u32, Number)> = score.probabilities.iter().map(|(level, weight)| (*level, *weight)).collect();
    weights.sort_by_key(|(level, _)| *level);
    assert_eq!(weights, vec![(0, double(0.1)), (1, double(0.6)), (2, double(0.2))]);
}

#[test]
fn the_legend_is_the_scale_the_caller_sent_rather_than_the_providers_echo_of_it() {
    let reply = scored_reply(
        r#"{"type": "score", "score": 1.0, "legend": {"0": "Serene", "1": "Cross", "2": "Livid"}}"#,
    );

    let verdict = accepted(&reply, vec![frustration()]);

    let Given::Score(score) = &verdict.answers[0].answer else {
        panic!("a score question is answered with a score");
    };
    assert_eq!(
        score.legend,
        vec![
            (0, "Calm".to_owned()),
            (1, "Frustrated".to_owned()),
            (2, "Very angry".to_owned()),
        ]
    );
}

#[test]
fn an_optional_the_provider_left_out_or_sent_as_null_reads_the_same_way() {
    for answered in [
        r#"{"type": "score", "score": 1.0}"#,
        r#"{"type": "score", "score": 1.0, "probabilities": null, "confidence": null}"#,
    ] {
        let verdict = accepted(&scored_reply(answered), vec![frustration()]);

        let Given::Score(score) = &verdict.answers[0].answer else {
            panic!("a score question is answered with a score");
        };
        assert!(score.probabilities.is_empty());
        assert_eq!(score.confidence, double(0.0));
        assert_eq!(score.legend.len(), 3, "the legend is always the caller's");
    }
}

#[test]
fn a_probability_outside_zero_to_one_names_the_question() {
    let reply = scored_reply(r#"{"type": "score", "score": 1.0, "probabilities": {"1": 1.5}}"#);

    assert!(refused(&reply, vec![frustration()]).contains("frustration"));
}

#[test]
fn a_confidence_the_provider_sent_but_we_cannot_read_names_the_question() {
    let reply = scored_reply(r#"{"type": "score", "score": 1.0, "confidence": "high"}"#);

    let message = refused(&reply, vec![frustration()]);

    assert!(message.contains("frustration"), "{message}");
    assert!(message.contains("confidence"), "{message}");
}

#[test]
fn a_reply_without_answers_is_worth_retrying() {
    assert!(matches!(
        read_verdict(&json(r#"{"model": "jev-1.13.0"}"#), &vec![urgency()], &json("{}")).unwrap_err(),
        CallError::WorthRetrying(_)
    ));
}

#[test]
fn a_model_the_provider_did_not_name_is_read_as_a_card_of_empty_fields() {
    let card = model_card(&json(r#"{"name": "jev-latest"}"#));

    assert_eq!(card.name, "jev-latest");
    assert!(card.description.is_empty());
    assert!(card.release_date.is_empty());
}

#[test]
fn choice_options_reach_the_model_in_the_order_the_caller_offered_them() {
    let body = decide_body(MODEL, &decision(vec![department()]));

    let criteria = body.get("questions").unwrap().get("department").unwrap().get("criteria").unwrap();
    assert_eq!(keys(criteria), ["billing", "technical", "sales"]);
}

#[test]
fn an_option_without_a_description_is_offered_as_null() {
    let body = decide_body(MODEL, &decision(vec![department()]));

    let criteria = body.get("questions").unwrap().get("department").unwrap().get("criteria").unwrap();
    assert_eq!(criteria.get("sales"), Some(&Json::Null));
}

#[test]
fn a_noul_without_criteria_sends_none_at_all() {
    let bare = || Question {
        kind: QuestionKind::Noul { when_true: None, when_false: None },
        ..urgency()
    };

    let body = decide_body(MODEL, &decision(vec![bare()]));

    assert_eq!(body.get("questions").unwrap().get("is_urgent").unwrap().get("criteria"), None);
    let logged = audit_body(MODEL, &decision(vec![bare()]));
    let Some(Json::Array(questions)) = logged.get("questions") else {
        panic!("the questions are a list");
    };
    assert_eq!(questions[0].get("criteria"), None);
}

#[test]
fn the_logged_request_keeps_the_questions_in_the_order_they_were_asked() {
    let logged = audit_body(MODEL, &decision(vec![frustration(), urgency(), department()]));

    let Some(Json::Array(questions)) = logged.get("questions") else {
        panic!("the questions are a list");
    };
    let asked: Vec<&str> = questions.iter().map(|question| question.str_at("id").unwrap()).collect();
    assert_eq!(asked, ["frustration", "is_urgent", "department"]);
    let Some(Json::Array(options)) = questions[2].get("criteria") else {
        panic!("the options are a list");
    };
    let offered: Vec<&str> = options.iter().map(|option| option.str_at("name").unwrap()).collect();
    assert_eq!(offered, ["billing", "technical", "sales"]);
}

#[test]
fn a_call_carries_the_key_the_state_and_every_question() {
    let body = decide_body(MODEL, &decision(vec![urgency(), department(), frustration()]));

    assert_eq!(body.str_at("model"), Some(MODEL));
    assert_eq!(body.str_at("state"), Some("Help! My payouts have been failing for 3 days."));
    let questions = body.get("questions").unwrap();
    assert_eq!(keys(questions), ["is_urgent", "department", "frustration"]);
    let urgent = questions.get("is_urgent").unwrap();
    assert_eq!(urgent.str_at("type"), Some("noul"));
    assert_eq!(urgent.get("criteria").unwrap().str_at("true"), Some("Explicitly time-sensitive"));
    assert_eq!(urgent.get("criteria").unwrap().str_at("false"), Some("No urgency expressed"));
    assert_eq!(questions.get("department").unwrap().str_at("type"), Some("choice"));
    let frustrated = questions.get("frustration").unwrap();
    assert_eq!(*frustrated.get("criteria").unwrap(), json(r#"["Calm", "Frustrated", "Very angry"]"#));
    assert_eq!(frustrated.str_at("instructions"), Some("How frustrated is the customer?"));
}

const SECOND: u64 = 1_000_000_000;

#[test]
fn the_adapters_own_timeout_is_seconds_not_the_completion_sides_sixty() {
    assert_eq!(REQUEST_TIMEOUT, 1500);
}

#[test]
fn a_callers_deadline_bounds_the_vendor_call_below_itself() {
    let adapter = SystemOne::new("", String::new(), 60 * SECOND);
    let caller_waits = 2 * SECOND;

    let allowed = adapter.within(Some(caller_waits));

    assert!(allowed < caller_waits, "{allowed} vs {caller_waits}");
    assert!(allowed >= TOO_LITTLE_TIME_IS_STILL_ONE_ATTEMPT);
}

#[test]
fn a_short_deadline_still_bounds_the_call_below_itself() {
    let adapter = SystemOne::new("", String::new(), 60 * SECOND);

    for left in [TOO_LITTLE_TIME_IS_STILL_ONE_ATTEMPT + 1, SECOND / 4, SECOND / 2] {
        assert!(adapter.within(Some(left)) < left, "{left}");
    }
}

#[test]
fn a_caller_with_no_deadline_gets_the_ceiling() {
    let ceiling = 1_500_000_000;
    let adapter = SystemOne::new("", String::new(), ceiling);

    assert_eq!(adapter.within(None), ceiling);
}

#[test]
fn a_deadline_already_spent_still_buys_one_attempt() {
    let adapter = SystemOne::new("", String::new(), 60 * SECOND);

    assert_eq!(adapter.within(Some(0)), TOO_LITTLE_TIME_IS_STILL_ONE_ATTEMPT);
}

#[test]
fn a_caller_waiting_longer_than_the_ceiling_does_not_raise_it() {
    let ceiling = 1_500_000_000;
    let adapter = SystemOne::new("", String::new(), ceiling);

    assert_eq!(adapter.within(Some(600 * SECOND)), ceiling);
}

fn unprocessable_reply() -> Json {
    json(
        r#"{"detail": [{
            "type": "too_short",
            "loc": ["body", "questions"],
            "msg": "Dictionary should have at least 1 item after validation, not 0"
        }]}"#,
    )
}

fn unauthenticated_reply() -> Json {
    json(
        r#"{"detail": {
            "error_type": "authentication_error",
            "message": "Cannot authenticate with the server. Please check your API key and try again."
        }}"#,
    )
}

#[test]
fn the_validation_failures_behind_a_422_reach_the_error() {
    let error = error_for_status(
        422,
        provider_message(&unprocessable_reply()),
        ClientFaults::RefusedWhenBodyShaped,
    );

    let CallError::Refused(message) = error else {
        panic!("a validation failure is the caller's to fix, not ours to retry");
    };
    assert!(message.contains("body.questions"), "{message}");
    assert!(message.contains("Dictionary should have at least 1 item"), "{message}");
}

#[test]
fn the_reason_behind_a_401_reaches_the_error_without_blaming_the_caller() {
    let error = error_for_status(
        401,
        provider_message(&unauthenticated_reply()),
        ClientFaults::RefusedWhenBodyShaped,
    );

    let CallError::Final(message) = error else {
        panic!("a key revoked after boot is this deployment's mistake, not the caller's request");
    };
    assert!(message.contains("Cannot authenticate with the server"), "{message}");
}

#[test]
fn a_refusal_naming_only_its_type_still_reaches_the_error() {
    let detail = json(r#"{"detail": {"error_type": "authentication_error"}}"#);

    assert_eq!(provider_message(&detail), Some("authentication_error".to_owned()));
}

#[test]
fn a_provider_that_words_its_error_plainly_is_still_understood() {
    assert_eq!(
        provider_message(&json(r#"{"error": "questions is empty"}"#)),
        Some("questions is empty".to_owned())
    );
    assert_eq!(provider_message(&json(r#"{"model": "jev-latest"}"#)), None);
}

#[test]
fn a_provider_that_refuses_the_call_says_why_and_keeps_what_was_sent() {
    let answer = answered(422, Ok(unprocessable_reply()), ClientFaults::RefusedWhenBodyShaped);
    let sent = audit_body(MODEL, &decision(vec![urgency()]));

    let failed = decide(answer, &vec![urgency()], sent).unwrap_err();

    let CallError::Refused(message) = &failed.error else {
        panic!("a 422 is the caller's own request coming back");
    };
    assert!(message.contains("body.questions"), "{message}");
    assert_eq!(failed.sent.str_at("model"), Some(MODEL));
    let Some(Json::Array(questions)) = failed.sent.get("questions") else {
        panic!("the questions are a list");
    };
    assert_eq!(questions[0].str_at("id"), Some("is_urgent"));
}

#[test]
fn a_key_revoked_after_boot_is_never_reported_as_the_callers_request() {
    let error = failure(401, Ok(unauthenticated_reply()), ClientFaults::RefusedWhenBodyShaped);

    let CallError::Final(message) = &error else {
        panic!("a 401 says nothing about the request that carried it");
    };
    assert!(message.contains("Cannot authenticate"), "{message}");
}

#[test]
fn the_models_the_provider_serves_come_back_as_cards() {
    let listed = models(&json(
        r#"{"models": [{
            "name": "jev-latest",
            "description": "The current judgement model",
            "release_date": "2026-09-10T18:38:01.391457+00:00"
        }]}"#,
    ))
    .unwrap();

    assert_eq!(listed.len(), 1);
    assert_eq!(listed[0].name, "jev-latest");
    assert_eq!(listed[0].description, "The current judgement model");
    assert_eq!(listed[0].release_date, "2026-09-10T18:38:01.391457+00:00");
}

#[test]
fn a_listing_this_adapter_cannot_read_is_an_error_rather_than_no_models() {
    assert!(matches!(models(&json(r#"{"data": []}"#)).unwrap_err(), CallError::Final(_)));
}

#[test]
fn a_call_goes_to_the_paths_of_the_vendor() {
    let adapter = SystemOne::new("https://api.typesafe.ai/", "test-key".to_owned(), SECOND);
    assert_eq!(adapter.decide_url(), "https://api.typesafe.ai/v1/systemone");
    assert_eq!(adapter.models_url(), "https://api.typesafe.ai/v1/models");
}

#[test]
fn a_key_the_provider_rejects_fails_the_model_listing_for_good() {
    let listed = answered(401, Ok(unauthenticated_reply()), ClientFaults::AlwaysFinal);
    assert!(matches!(listed.unwrap_err(), CallError::Final(_)));
}
