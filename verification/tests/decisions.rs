//! Structured decisions: what is told and recorded of them.

use llm_tools::json::{Json, Number};
use llm_tools::llm_router::audit::Outcome;
use llm_tools::llm_router::budget::{published, AskedQuestion, DecideRequest, Supplied, MAX_QUESTIONS};
use llm_tools::llm_router::decision::{
    Answer, Given, ModelCard, NotDecided, NoulAnswer, QuestionKind, Verdict,
};
use llm_tools::llm_router::decisions::{
    begin, configured, decide_response_from, describe_models, finish, latency, reply, reported,
};
use llm_tools::llm_router::provider::CallError;
use llm_tools::rpc::ErrorCode;

fn noul_question(id: &str) -> AskedQuestion {
    AskedQuestion {
        id: id.to_owned(),
        instructions: Supplied::Read(Json::Text("Does this convey urgency?".to_owned())),
        kind: Some(QuestionKind::Noul { when_true: None, when_false: None }),
    }
}

fn deciding(questions: Vec<AskedQuestion>) -> DecideRequest {
    DecideRequest {
        state: Supplied::Read(Json::Text("Help! My payouts have been failing for 3 days.".to_owned())),
        questions,
    }
}

fn answer(id: &str, noul: f64) -> Answer {
    Answer {
        id: id.to_owned(),
        answer: Given::Noul(NoulAnswer { noul: Number::Float(noul.to_bits()) }),
    }
}

fn sent_body() -> Json {
    Json::Object(vec![("model".to_owned(), Json::Text("jev-latest".to_owned()))])
}

fn decided() -> Result<Verdict, NotDecided> {
    Ok(Verdict {
        model_used: "jev-1.13.0".to_owned(),
        answers: vec![answer("is_urgent", 0.92)],
        tokens_in: 312,
        tokens_out: 48,
        sent: sent_body(),
        reply: Json::Text("the reply".to_owned()),
    })
}

fn not_decided(error: CallError) -> Result<Verdict, NotDecided> {
    Err(NotDecided { sent: sent_body(), error })
}

#[test]
fn a_verdict_carries_the_model_the_answers_and_the_counts_back_to_the_caller() {
    let verdict = Verdict {
        model_used: "jev-1.13.0".to_owned(),
        answers: vec![answer("is_urgent", 0.92), answer("is_billing", 0.11)],
        tokens_in: 312,
        tokens_out: 48,
        sent: Json::Object(Vec::new()),
        reply: Json::Object(Vec::new()),
    };

    let response = decide_response_from(verdict);

    assert_eq!(response.model_used, "jev-1.13.0");
    assert_eq!(response.tokens_in, 312);
    assert_eq!(response.tokens_out, 48);
    let asked: Vec<&str> = response.answers.iter().map(|answer| answer.id.as_str()).collect();
    assert_eq!(asked, ["is_urgent", "is_billing"]);
}

#[test]
fn a_decided_call_comes_back_with_its_model_and_is_recorded_with_what_was_sent() {
    begin(Some("jev-latest"), &deciding(vec![noul_question("is_urgent")])).unwrap();

    let (recorded, told) = finish("jev-latest", 1, 274, decided());

    let response = told.unwrap();
    assert_eq!(response.model_used, "jev-1.13.0");
    assert_eq!(response.answers.len(), 1);
    assert_eq!(response.tokens_in, 312);
    assert_eq!(response.tokens_out, 48);
    assert_eq!(recorded.outcome, Outcome::Answered);
    assert_eq!(recorded.model_used, "jev-1.13.0");
    assert_eq!(recorded.questions, 1);
    assert_eq!(recorded.tokens_in, 312);
    assert_eq!(recorded.latency_ms, 274);
    assert_eq!(recorded.sent, sent_body());
    assert_eq!(recorded.received, Json::Text("the reply".to_owned()));
}

#[test]
fn a_decision_that_could_not_be_recorded_is_answered_all_the_same() {
    let told = || finish("jev-latest", 1, 274, decided()).1;

    let (answer, complaint) = reply(told(), Err("the log is down".to_owned()));

    assert_eq!(answer, told());
    assert_eq!(complaint.as_deref(), Some("could not record a decision: the log is down"));
    assert_eq!(reply(told(), Ok(())).1, None);
}

#[test]
fn a_decision_the_provider_could_not_make_is_reported_and_recorded_as_failed() {
    let failed = CallError::WorthRetrying("the provider answered 529".to_owned());

    let (recorded, told) = finish("jev-latest", 1, 10, not_decided(failed));

    let error = told.unwrap_err();
    assert_eq!(error.code, ErrorCode::Unavailable, "{error:?}");
    assert!(error.message.contains("did not decide"), "{error:?}");
    assert!(
        !error.message.contains("529"),
        "the provider's own words must stay in the log: {error:?}"
    );
    assert_eq!(recorded.outcome, Outcome::Failed);
    assert_eq!(recorded.model_used, "jev-latest");
    assert_eq!(recorded.tokens_out, 0);
    assert_eq!(recorded.sent, sent_body());
    assert!(recorded.received.str_at("error").unwrap().contains("529"));
}

#[test]
fn a_request_the_provider_refused_comes_back_to_the_caller_in_the_providers_words() {
    let failed = CallError::Refused(
        "the provider answered 422: body.questions: Dictionary should have at least 1 item".to_owned(),
    );

    let (recorded, told) = finish("jev-latest", 1, 10, not_decided(failed));

    let error = told.unwrap_err();
    assert_eq!(error.code, ErrorCode::InvalidArgument, "{error:?}");
    assert!(error.message.contains("body.questions"), "{error:?}");
    assert_eq!(recorded.outcome, Outcome::Failed);
}

#[test]
fn a_reply_the_adapter_could_not_make_sense_of_stays_ours_to_own() {
    let failed = CallError::Final("the provider left is_urgent unanswered".to_owned());

    let (recorded, told) = finish("jev-latest", 1, 10, not_decided(failed));

    let error = told.unwrap_err();
    assert_eq!(error.code, ErrorCode::Internal, "{error:?}");
    assert!(error.message.contains("refused this decision"), "{error:?}");
    assert!(!error.message.contains("unanswered"), "{error:?}");
    assert_eq!(recorded.outcome, Outcome::Failed);
    assert!(recorded.received.str_at("error").unwrap().contains("unanswered"));
}

#[test]
fn a_request_over_the_budget_never_reaches_the_provider_and_is_never_recorded() {
    let too_many = (0..=MAX_QUESTIONS).map(|at| noul_question(&format!("question_{at}"))).collect();

    let error = begin(Some("jev-latest"), &deciding(too_many)).unwrap_err();

    assert_eq!(error.code, ErrorCode::InvalidArgument, "{error:?}");
}

#[test]
fn without_a_key_both_calls_say_so_and_nothing_is_recorded() {
    let refused = begin(None, &deciding(vec![noul_question("is_urgent")])).unwrap_err();
    let unlisted = configured(None).unwrap_err();

    for error in [&refused, &unlisted] {
        assert_eq!(error.code, ErrorCode::FailedPrecondition, "{error:?}");
        assert!(error.message.contains("not configured for this deployment"), "{error:?}");
        assert!(
            !error.message.contains("TYPESAFE_AI_API_KEY"),
            "a caller cannot act on this deployment's variable names: {error:?}"
        );
    }
}

#[test]
fn the_models_and_the_budget_of_this_class_are_published_together() {
    let card = ModelCard {
        name: "jev-latest".to_owned(),
        description: String::new(),
        release_date: String::new(),
    };

    let response = describe_models(Ok(vec![card])).unwrap();

    assert_eq!(response.models.len(), 1);
    assert_eq!(response.models[0].name, "jev-latest");
    assert_eq!(response.budget, published());
}

#[test]
fn a_listing_the_provider_could_not_give_is_an_error_rather_than_no_models() {
    for (listed, expected) in [
        (CallError::Final("a shape this adapter cannot read".to_owned()), ErrorCode::Internal),
        (CallError::Refused("the provider answered 401".to_owned()), ErrorCode::Internal),
        (CallError::WorthRetrying("the provider answered 503".to_owned()), ErrorCode::Unavailable),
    ] {
        let error = describe_models(Err(listed)).unwrap_err();

        assert_eq!(error.code, expected, "{error:?}");
        assert!(!error.message.contains("decision log"), "{error:?}");
    }
}

#[test]
fn only_a_refusal_is_handed_back_in_the_providers_words() {
    let words = "the provider's own words";
    assert_eq!(reported(&CallError::Refused(words.to_owned())).message, words);
    assert_ne!(reported(&CallError::Final(words.to_owned())).message, words);
    assert_ne!(reported(&CallError::WorthRetrying(words.to_owned())).message, words);
}

#[test]
fn a_latency_past_its_column_is_kept_at_the_most_it_holds() {
    assert_eq!(latency(274), 274);
    assert_eq!(latency(u64::MAX), i32::MAX);
}
