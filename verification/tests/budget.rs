//! Everything one decision may carry.

use llm_tools::json::{Json, Number};
use llm_tools::llm_router::budget::{
    counted, json_from, published, validated_decision, AskedQuestion, DecideRequest, Supplied, MAX_CHOICE_OPTIONS,
    MAX_INSTRUCTIONS_BYTES, MAX_LEVEL_BYTES, MAX_OPTION_DESCRIPTION_BYTES, MAX_OPTION_NAME_BYTES, MAX_QUESTIONS,
    MAX_QUESTION_ID_BYTES, MAX_REQUEST_BYTES, MAX_SCORE_LEVELS, MAX_STATE_BYTES, MAX_STATE_PLUS_QUESTION_BYTES,
    MIN_SCORE_LEVELS, VENDOR_STATE_PLUS_QUESTION_TOKENS, WORST_CASE_BYTES_PER_TOKEN,
};
use llm_tools::llm_router::decision::{ChoiceOption, QuestionKind};
use llm_tools::rpc::ErrorCode;

fn text(text: &str) -> Supplied {
    Supplied::Read(Json::Text(text.to_owned()))
}

fn deciding_about(state: Supplied, questions: Vec<AskedQuestion>) -> DecideRequest {
    DecideRequest { state, questions }
}

fn deciding(questions: Vec<AskedQuestion>) -> DecideRequest {
    deciding_about(text("Help! My payouts have been failing for 3 days."), questions)
}

fn instructed(id: &str, instructions: Supplied) -> AskedQuestion {
    AskedQuestion {
        id: id.to_owned(),
        instructions,
        kind: Some(QuestionKind::Noul { when_true: None, when_false: None }),
    }
}

fn noul_question(id: &str) -> AskedQuestion {
    instructed(id, text("Does this convey urgency?"))
}

fn choice_question(id: &str, options: Vec<(&str, &str)>) -> AskedQuestion {
    AskedQuestion {
        kind: Some(QuestionKind::Choice {
            options: options
                .into_iter()
                .map(|(name, description)| ChoiceOption {
                    name: name.to_owned(),
                    description: Some(description.to_owned()),
                })
                .collect(),
        }),
        ..instructed(id, text("Which team should handle this?"))
    }
}

fn score_question(id: &str, levels: &[&str]) -> AskedQuestion {
    AskedQuestion {
        kind: Some(QuestionKind::Score {
            levels: levels.iter().map(|level| (*level).to_owned()).collect(),
        }),
        ..instructed(id, text("How frustrated is the customer?"))
    }
}

fn assert_refused(request: DecideRequest, offender: &str) {
    let error = validated_decision(&request).unwrap_err();

    assert_eq!(error.code, ErrorCode::InvalidArgument, "{error:?}");
    assert!(format!("{error:?}").contains(offender), "{error:?}");
}

fn assert_question_refused(questions: Vec<AskedQuestion>, at: &str) {
    assert_refused(deciding(questions), at);
}

fn named(count: usize, prefix: &str) -> Vec<String> {
    (0..count).map(|at| format!("{prefix}{at}")).collect()
}

#[test]
fn the_published_budget_is_the_budget_that_is_enforced() {
    let budget = published();

    assert_eq!(budget.max_questions, counted(MAX_QUESTIONS));
    assert_eq!(budget.max_choice_options, counted(MAX_CHOICE_OPTIONS));
    assert_eq!(budget.min_score_levels, counted(MIN_SCORE_LEVELS));
    assert_eq!(budget.max_score_levels, counted(MAX_SCORE_LEVELS));
    assert_eq!(budget.max_state_bytes, counted(MAX_STATE_BYTES));
    assert_eq!(budget.max_instructions_bytes, counted(MAX_INSTRUCTIONS_BYTES));
    assert_eq!(budget.max_question_id_bytes, counted(MAX_QUESTION_ID_BYTES));
    assert_eq!(budget.max_option_name_bytes, counted(MAX_OPTION_NAME_BYTES));
    assert_eq!(budget.max_option_description_bytes, counted(MAX_OPTION_DESCRIPTION_BYTES));
    assert_eq!(budget.max_level_bytes, counted(MAX_LEVEL_BYTES));
    assert_eq!(budget.max_state_plus_question_bytes, counted(MAX_STATE_PLUS_QUESTION_BYTES));
    assert_eq!(budget.max_request_bytes, counted(MAX_REQUEST_BYTES));
}

fn heavy() -> AskedQuestion {
    let descriptions = "d".repeat(MAX_OPTION_DESCRIPTION_BYTES);
    let names = named(MAX_CHOICE_OPTIONS, "o");
    choice_question(
        "department",
        names.iter().map(|name| (name.as_str(), descriptions.as_str())).collect(),
    )
}

#[test]
fn a_request_refused_by_the_combined_check_names_the_published_limit() {
    let published_limit = published().max_state_plus_question_bytes;

    assert_refused(deciding(vec![heavy()]), &published_limit.to_string());
}

#[test]
fn a_request_without_questions_is_refused() {
    assert_question_refused(Vec::new(), "questions");
}

#[test]
fn more_questions_than_one_call_may_carry_are_refused() {
    let too_many = (0..=MAX_QUESTIONS).map(|at| noul_question(&format!("question_{at}"))).collect();

    assert_question_refused(too_many, &MAX_QUESTIONS.to_string());
}

#[test]
fn exactly_as_much_as_a_call_may_carry_is_accepted() {
    let names = named(MAX_CHOICE_OPTIONS, "o");
    let levels = named(MAX_SCORE_LEVELS, "level ");
    let mut asked: Vec<_> =
        (0..MAX_QUESTIONS - 2).map(|at| noul_question(&format!("question_{at}"))).collect();
    asked.push(choice_question(
        "department",
        names.iter().map(|name| (name.as_str(), "an option")).collect(),
    ));
    asked.push(score_question(
        "frustration",
        &levels.iter().map(String::as_str).collect::<Vec<_>>(),
    ));

    let decision = validated_decision(&deciding(asked)).unwrap();

    assert_eq!(decision.questions.len(), MAX_QUESTIONS);
    let QuestionKind::Choice { options } = &decision.questions[MAX_QUESTIONS - 2].kind else {
        panic!("a choice question keeps its options");
    };
    assert_eq!(options.len(), MAX_CHOICE_OPTIONS);
    let QuestionKind::Score { levels } = &decision.questions[MAX_QUESTIONS - 1].kind else {
        panic!("a score question keeps its levels");
    };
    assert_eq!(levels.len(), MAX_SCORE_LEVELS);
}

#[test]
fn state_plus_instructions_stays_under_the_vendors_token_ceiling_at_the_worst_case_ratio() {
    let worst_case_tokens = (MAX_STATE_BYTES + MAX_INSTRUCTIONS_BYTES) / WORST_CASE_BYTES_PER_TOKEN;

    assert!(
        worst_case_tokens < VENDOR_STATE_PLUS_QUESTION_TOKENS,
        "state plus instructions is {worst_case_tokens} tokens at {WORST_CASE_BYTES_PER_TOKEN} \
         bytes/token, the vendor's ceiling is {VENDOR_STATE_PLUS_QUESTION_TOKENS}"
    );
}

#[test]
fn a_state_exactly_at_the_byte_limit_is_accepted() {
    // Two of the bytes are the quotes around the string.
    let at_the_limit = text(&"x".repeat(MAX_STATE_BYTES - 2));

    validated_decision(&deciding_about(at_the_limit, vec![noul_question("is_urgent")])).unwrap();
}

#[test]
fn a_state_one_byte_over_the_limit_is_refused() {
    let one_byte_over = text(&"x".repeat(MAX_STATE_BYTES - 1));

    assert_refused(
        deciding_about(one_byte_over, vec![noul_question("is_urgent")]),
        &MAX_STATE_BYTES.to_string(),
    );
}

#[test]
fn a_choice_questions_options_alone_can_push_state_plus_question_over_the_combined_limit() {
    assert_refused(deciding(vec![heavy()]), &MAX_STATE_PLUS_QUESTION_BYTES.to_string());
}

#[test]
fn many_light_questions_can_pass_every_individual_check_and_still_be_refused_for_their_total() {
    let instructions = "x".repeat(2_200);
    let questions: Vec<_> =
        named(MAX_QUESTIONS, "q").iter().map(|id| instructed(id, text(&instructions))).collect();

    assert_refused(deciding(questions), &MAX_REQUEST_BYTES.to_string());
}

#[test]
fn a_question_without_an_id_is_refused() {
    assert_question_refused(vec![noul_question("")], "id");
}

#[test]
fn a_question_id_longer_than_the_limit_is_refused() {
    let long = "q".repeat(MAX_QUESTION_ID_BYTES + 1);

    assert_question_refused(vec![noul_question(&long)], &MAX_QUESTION_ID_BYTES.to_string());
}

#[test]
fn a_question_id_asked_twice_is_refused() {
    assert_question_refused(
        vec![noul_question("is_urgent"), noul_question("is_urgent")],
        "is_urgent",
    );
}

#[test]
fn a_state_larger_than_the_limit_is_refused() {
    let huge = text(&"x".repeat(MAX_STATE_BYTES));

    assert_refused(
        deciding_about(huge, vec![noul_question("is_urgent")]),
        &MAX_STATE_BYTES.to_string(),
    );
}

#[test]
fn a_state_the_caller_left_unset_is_refused_rather_than_asked_about() {
    for unset in [Supplied::Unset, Supplied::Read(Json::Null)] {
        assert_refused(
            deciding_about(unset, vec![noul_question("is_urgent")]),
            "state must be set",
        );
    }
}

#[test]
fn instructions_larger_than_the_limit_name_their_question() {
    let huge = text(&"x".repeat(MAX_INSTRUCTIONS_BYTES));

    assert_question_refused(vec![instructed("is_urgent", huge)], "is_urgent");
}

#[test]
fn instructions_the_caller_left_unset_are_refused_rather_than_asked_about() {
    for unset in [Supplied::Unset, Supplied::Read(Json::Null)] {
        assert_question_refused(vec![instructed("is_urgent", unset)], "must be set");
    }
}

#[test]
fn a_question_without_a_kind_is_refused() {
    let bare = AskedQuestion { kind: None, ..noul_question("is_urgent") };

    assert_question_refused(vec![bare], "kind");
}

#[test]
fn a_choice_without_options_is_refused() {
    assert_question_refused(vec![choice_question("department", Vec::new())], "options");
}

#[test]
fn a_choice_with_more_options_than_the_class_takes_is_refused() {
    let names = named(MAX_CHOICE_OPTIONS + 1, "o");
    let too_many = names.iter().map(|name| (name.as_str(), "an option")).collect();

    assert_question_refused(
        vec![choice_question("department", too_many)],
        &MAX_CHOICE_OPTIONS.to_string(),
    );
}

#[test]
fn a_choice_option_without_a_name_is_refused() {
    assert_question_refused(vec![choice_question("department", vec![("", "Payments")])], "name");
}

#[test]
fn a_choice_option_offered_twice_is_refused() {
    assert_question_refused(
        vec![choice_question("department", vec![("billing", "Payments"), ("billing", "Refunds")])],
        "billing",
    );
}

#[test]
fn an_option_name_or_description_over_its_byte_limit_is_refused() {
    let long_name = "b".repeat(MAX_OPTION_NAME_BYTES + 1);
    let long_description = "p".repeat(MAX_OPTION_DESCRIPTION_BYTES + 1);

    assert_question_refused(
        vec![choice_question("department", vec![(long_name.as_str(), "Payments")])],
        &MAX_OPTION_NAME_BYTES.to_string(),
    );
    assert_question_refused(
        vec![choice_question("department", vec![("billing", long_description.as_str())])],
        &MAX_OPTION_DESCRIPTION_BYTES.to_string(),
    );
}

#[test]
fn a_score_with_a_single_level_is_refused() {
    assert_question_refused(vec![score_question("frustration", &["Calm"])], "levels");
}

#[test]
fn a_score_with_more_levels_than_the_class_takes_is_refused() {
    let levels = named(MAX_SCORE_LEVELS + 1, "level ");
    let too_many: Vec<&str> = levels.iter().map(String::as_str).collect();

    assert_question_refused(
        vec![score_question("frustration", &too_many)],
        &MAX_SCORE_LEVELS.to_string(),
    );
}

#[test]
fn a_score_level_over_its_byte_limit_is_refused() {
    let long = "x".repeat(MAX_LEVEL_BYTES + 1);

    assert_question_refused(
        vec![score_question("frustration", &["Calm", long.as_str()])],
        &MAX_LEVEL_BYTES.to_string(),
    );
}

#[test]
fn a_noul_criterion_over_its_byte_limit_is_refused() {
    let long = "x".repeat(MAX_LEVEL_BYTES + 1);
    let question = AskedQuestion {
        kind: Some(QuestionKind::Noul { when_true: Some(long), when_false: None }),
        ..noul_question("is_urgent")
    };

    assert_question_refused(vec![question], &MAX_LEVEL_BYTES.to_string());
}

#[test]
fn a_state_reads_as_the_json_it_stands_for_and_an_unset_one_as_null() {
    let payouts = || {
        Json::Object(vec![
            ("days".to_owned(), Json::Number(Number::Float(3.0f64.to_bits()))),
            ("payouts".to_owned(), Json::Text("failing".to_owned())),
        ])
    };

    assert_eq!(json_from(&Supplied::Read(payouts())), Ok(payouts()));
    assert_eq!(json_from(&Supplied::Unset), Ok(Json::Null));
    assert_eq!(
        json_from(&Supplied::Unreadable("a number JSON cannot write".to_owned())),
        Err("could not be read as JSON: a number JSON cannot write".to_owned())
    );
}
