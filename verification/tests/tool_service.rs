//! The life of a tool: registration, review, activation, the catalog and calls.

use llm_tools::json::{Json, Number};
use llm_tools::llm_router::adapters::system_one::REQUEST_TIMEOUT;
use llm_tools::llm_router::budget::{validated_decision, Supplied};
use llm_tools::rpc::ErrorCode;
use llm_tools::tool::args::{
    Fetch, ReadDocument, Search, DEFAULT_SEARCH_LIMIT, MAX_SEARCH_LIMIT, MAX_URLS,
};
use llm_tools::tool::entity::{is_missing_manual_unique_index, Risk, Status, Tool};
use llm_tools::tool::error::{ToolError, INTERNAL_MESSAGE_WITHOUT_STORAGE_DETAIL};
use llm_tools::tool::policy::{check_policy, PolicyDecision};
use llm_tools::tool::review::{
    begin_review, conclude_review, criteria_for, decide_call_error, definition_text, Answered, Criterion, Review,
    ReviewAnswer, VALIDATE_TIMEOUT,
};
use llm_tools::tool::service::{
    activate_tool, begin_fetch, begin_read, begin_search, create_tool, ensure_all_urls_public, execute, finished,
    list_tools, registered_timeout, user_owned_tool, BuiltIn, Call, ExecuteOutcome, NewTool, MAX_NAME_CHARS,
    MAX_SLUG_CHARS, MAX_TIMEOUT_SECONDS, MIN_TIMEOUT_SECONDS,
};
use llm_tools::tool::slugs::{KB_SEARCH, WEB_SEARCH};
use llm_tools::tool::wire::{
    addressed, begin_create, execute_response, list_response, risk_from_proto, CreateToolRequest, ExecuteStatus,
};

const TEST_TIMEOUT_SECONDS: i32 = 30;
const OWNER: u128 = 1;

fn object() -> Json {
    Json::Object(vec![("type".to_owned(), Json::Text("object".to_owned()))])
}

fn a_tool(slug: &str, name: &str, description: &str, risk: Risk) -> NewTool {
    NewTool::checked(
        slug.to_owned(),
        name.to_owned(),
        description.to_owned(),
        object(),
        object(),
        risk,
        TEST_TIMEOUT_SECONDS,
    )
    .expect("a valid tool definition")
}

fn draft(owner: Option<u128>, tool: NewTool) -> Tool {
    Tool { id: 11, ..create_tool(owner, tool).expect("create") }
}

fn draft_tool() -> Tool {
    draft(Some(OWNER), a_tool("echo", "Echo", "Echoes input", Risk::ReadOnly))
}

#[test]
fn validate_timeout_stays_strictly_above_the_adapters_inner_deadline() {
    assert!(VALIDATE_TIMEOUT > REQUEST_TIMEOUT, "{VALIDATE_TIMEOUT} vs {REQUEST_TIMEOUT}");
    assert!(VALIDATE_TIMEOUT > 1500);
}

fn noul_answer(id: &str, noul: f64) -> ReviewAnswer {
    ReviewAnswer { id: id.to_owned(), answer: Answered::Noul(noul.to_bits()) }
}

fn choice_answer(id: &str) -> ReviewAnswer {
    ReviewAnswer { id: id.to_owned(), answer: Answered::Other }
}

fn echoing(tool: &Tool, noul: f64) -> Vec<ReviewAnswer> {
    begin_review(tool)
        .expect("a draft is reviewed")
        .questions
        .iter()
        .map(|question| noul_answer(&question.id, noul))
        .collect()
}

fn validate(tool: &Tool, answers: Vec<ReviewAnswer>) -> Review {
    begin_review(tool).expect("a draft is reviewed");
    conclude_review(tool.risk, &answers)
}

#[test]
fn a_confident_yes_validates_without_asking_for_words() {
    let tool = draft_tool();
    let answers = echoing(&tool, 0.93);

    let review = validate(&tool, answers);

    assert!(review.approved);
    assert!(review.feedback.is_empty(), "an approval needs no prose: {:?}", review.feedback);
}

#[test]
fn a_refusal_names_the_failed_criterion_and_makes_no_completions() {
    let review = validate(
        &draft_tool(),
        vec![
            noul_answer("input_schema", 0.1),
            noul_answer("output_schema", 0.9),
            noul_answer("description_purpose", 0.9),
            noul_answer("timeout", 0.9),
        ],
    );

    assert!(!review.approved);
    assert!(review.feedback.contains("input_schema"), "{}", review.feedback);
    assert!(
        !review.feedback.contains("output_schema") && !review.feedback.contains("description_purpose"),
        "a refusal must not name a criterion that passed: {}",
        review.feedback
    );
    assert_eq!(
        review.feedback,
        "This tool definition does not meet the requirements:\n- input_schema: input_schema is missing, not an \
         object, or not a plausible JSON Schema for this tool's input"
    );
}

#[test]
fn a_decision_with_no_answers_refuses_naming_every_criterion() {
    let review = validate(&draft_tool(), Vec::new());

    assert!(!review.approved, "an empty decision must never approve");
    for id in ["input_schema", "output_schema", "description_purpose", "timeout"] {
        assert!(review.feedback.contains(id), "{id} missing from {}", review.feedback);
    }
}

#[test]
fn an_answer_under_an_id_never_asked_does_not_approve_that_criterion() {
    let review = validate(
        &draft_tool(),
        vec![
            noul_answer("input_schema", 0.9),
            noul_answer("output_schema", 0.9),
            noul_answer("description_purpose", 0.9),
            noul_answer("timeout_seconds", 0.99),
        ],
    );

    assert!(!review.approved, "a high-confidence answer under a foreign id must not approve anything");
    assert!(review.feedback.contains("timeout"), "{}", review.feedback);
}

#[test]
fn a_choice_answer_where_a_noul_was_asked_does_not_approve() {
    let review = validate(
        &draft_tool(),
        vec![
            noul_answer("input_schema", 0.9),
            noul_answer("output_schema", 0.9),
            noul_answer("description_purpose", 0.9),
            choice_answer("timeout"),
        ],
    );

    assert!(!review.approved, "a choice answer must not satisfy a noul question");
    assert!(review.feedback.contains("timeout"), "{}", review.feedback);
}

#[test]
fn a_write_tool_must_state_what_it_changes() {
    let tool = draft(Some(OWNER), a_tool("send_email", "Send Email", "Sends an email", Risk::Write));

    let review = validate(
        &tool,
        vec![
            noul_answer("input_schema", 0.9),
            noul_answer("output_schema", 0.9),
            noul_answer("description_purpose", 0.9),
            noul_answer("timeout", 0.9),
            noul_answer("description_changes", 0.1),
        ],
    );

    assert!(!review.approved);
    assert!(review.feedback.contains("description_changes"), "{}", review.feedback);
}

#[test]
fn a_write_tool_that_states_what_it_changes_is_approved() {
    let tool = draft(
        Some(OWNER),
        a_tool(
            "send_email",
            "Send Email",
            "Sends an email and records the delivery in the audit log",
            Risk::Write,
        ),
    );
    let answers = echoing(&tool, 0.93);
    assert_eq!(answers.len(), 5);

    let review = validate(&tool, answers);

    assert!(review.approved, "{}", review.feedback);
}

#[test]
fn only_a_tool_that_changes_something_is_asked_what_it_changes() {
    assert!(!criteria_for(Risk::ReadOnly).contains(&Criterion::DescriptionChanges));
    assert!(criteria_for(Risk::Write).contains(&Criterion::DescriptionChanges));
    assert!(criteria_for(Risk::Destructive).contains(&Criterion::DescriptionChanges));
}

#[test]
fn a_yes_counts_from_the_threshold_on_and_no_number_never_does() {
    let tool = draft_tool();
    for (noul, approved) in [
        (0.7, true),
        (0.7 - 1e-16, false),
        (1.0, true),
        (0.0, false),
        (-0.9, false),
        (f64::NAN, false),
        (f64::INFINITY, true),
    ] {
        assert_eq!(validate(&tool, echoing(&tool, noul)).approved, approved, "{noul}");
    }
}

#[test]
fn an_unreachable_decider_reports_review_unavailable_and_does_not_approve() {
    assert_eq!(
        decide_call_error(false, "connection refused"),
        ToolError::ReviewUnavailable("tool review is temporarily unavailable: connection refused".to_owned())
    );
    assert_eq!(
        decide_call_error(true, "state is too large"),
        ToolError::InvalidRequest("the tool definition could not be reviewed: state is too large".to_owned())
    );
}

#[test]
fn the_decider_is_told_the_whole_definition() {
    let tool = draft_tool();
    assert_eq!(
        definition_text(&tool),
        "name: Echo\ndescription: Echoes input\ninput_schema: {\"type\":\"object\"}\noutput_schema: \
         {\"type\":\"object\"}\nrisk: ReadOnly\ntimeout_seconds: 30"
    );
    let request = begin_review(&tool).unwrap();
    assert_eq!(request.state, Supplied::Read(Json::Text(definition_text(&tool))));
    validated_decision(&request).expect("an ordinary definition is within the budget of a decision");
}

#[test]
fn create_tool_rejects_a_user_owned_system_slug() {
    let error =
        create_tool(Some(2), a_tool(WEB_SEARCH, "Shadow web search", "d", Risk::ReadOnly)).unwrap_err();

    assert_eq!(
        error,
        ToolError::InvalidRequest("slug \"web_search\" is reserved for a system tool".to_owned())
    );
    create_tool(None, a_tool(WEB_SEARCH, "Web search", "d", Risk::ReadOnly)).expect("the system may");
}

#[test]
fn create_tool_starts_as_draft() {
    let row = create_tool(Some(2), a_tool("echo", "Echo", "Echoes input", Risk::ReadOnly)).unwrap();
    assert_eq!(row.status, Status::Draft);
    assert_eq!(row.user_id, Some(2));
}

#[test]
fn validate_tool_approves_and_advances_to_validated() {
    let tool = draft_tool();
    let review = validate(&tool, echoing(&tool, 0.93));

    assert!(review.approved);
    assert!(review.feedback.is_empty());
    assert_eq!(review.status, Status::Validated);
}

#[test]
fn validate_tool_rejects_a_tool_that_is_no_longer_draft() {
    let tool = Tool { status: Status::Validated, ..draft_tool() };

    assert_eq!(
        begin_review(&tool).unwrap_err(),
        ToolError::InvalidRequest("tool 11 is not Draft".to_owned())
    );
}

#[test]
fn validate_tool_rejection_stays_draft() {
    let tool = draft_tool();
    let review = validate(&tool, echoing(&tool, 0.08));

    assert!(!review.approved);
    assert_eq!(review.status, Status::Draft);
}

#[test]
fn activate_tool_requires_validated_status() {
    assert_eq!(
        activate_tool(&draft_tool()).unwrap_err(),
        ToolError::InvalidRequest("tool 11 is not Validated".to_owned())
    );
    let validated = Tool { status: Status::Validated, ..draft_tool() };
    assert_eq!(activate_tool(&validated), Ok(Status::Active));
    let active = Tool { status: Status::Active, ..draft_tool() };
    assert!(activate_tool(&active).is_err());
}

#[test]
fn a_tool_of_someone_else_is_not_found() {
    assert_eq!(user_owned_tool(11, OWNER, Some(draft_tool())).unwrap(), draft_tool());
    assert_eq!(user_owned_tool(11, 2, Some(draft_tool())), Err(ToolError::NotFound(11)));
    assert_eq!(user_owned_tool(11, OWNER, None), Err(ToolError::NotFound(11)));
}

fn active(owner: Option<u128>, slug: &str) -> Tool {
    Tool { status: Status::Active, ..draft(owner, a_tool(slug, "Mine", "d", Risk::ReadOnly)) }
}

#[test]
fn list_tools_hides_other_users_tools() {
    let owner = 5;
    let stranger = 6;
    let registry = || vec![active(Some(owner), "mine"), active(None, "shared"), draft_tool()];
    let slugs = |tools: Vec<Tool>| tools.into_iter().map(|tool| tool.slug).collect::<Vec<_>>();

    assert_eq!(slugs(list_tools(Some(stranger), registry())), ["shared"]);
    assert_eq!(slugs(list_tools(Some(owner), registry())), ["mine", "shared"]);
    assert_eq!(slugs(list_tools(None, registry())), ["shared"]);
}

fn kb_search() -> Tool {
    draft(
        None,
        a_tool(KB_SEARCH, "Knowledge base search", "Searches the knowledge base", Risk::ReadOnly),
    )
}

#[test]
fn execute_on_a_read_only_system_tool_runs_it() {
    let call = execute(None, KB_SEARCH, r#"{"query": "borrow checker"}"#, vec![kb_search()]).unwrap();

    let Call::System { tool, input, timeout } = call else {
        panic!("a system tool is run by the service: {call:?}");
    };
    assert_eq!(tool, BuiltIn::KbSearch);
    assert_eq!(input.str_at("query"), Some("borrow checker"));
    assert_eq!(timeout, 30);
}

#[test]
fn an_argument_the_tool_does_not_declare_is_refused_naming_the_one_it_takes() {
    let problem = "unknown field `q`, expected `query` or `limit`".to_owned();
    let Err(ExecuteOutcome::Error(message)) = begin_search(Err(problem)) else {
        panic!("a misspelled argument must not reach the provider");
    };
    assert!(message.contains('q'), "{message}");
    assert!(message.contains("query"), "{message}");
}

fn done(call: Call) -> ExecuteOutcome {
    let Call::Done(outcome) = call else {
        panic!("nothing is run: {call:?}");
    };
    outcome
}

#[test]
fn execute_on_an_unregistered_slug_is_an_error() {
    assert_eq!(
        done(execute(None, "nonexistent", "{}", Vec::new()).unwrap()),
        ExecuteOutcome::Error("no tool with slug \"nonexistent\"".to_owned())
    );
}

#[test]
fn execute_on_a_write_tool_requires_approval_without_running_it() {
    let registry = || vec![draft(Some(2), a_tool("send_email", "Send Email", "Sends an email", Risk::Write))];

    assert_eq!(
        done(execute(Some(2), "send_email", "{}", registry()).unwrap()),
        ExecuteOutcome::RequiresApproval
    );
    assert_eq!(
        done(execute(Some(2), "send_email", "not json", registry()).unwrap()),
        ExecuteOutcome::RequiresApproval
    );
}

#[test]
fn execute_on_a_user_created_tool_is_not_executable() {
    let registry = vec![draft(Some(2), a_tool("custom_thing", "Custom", "d", Risk::ReadOnly))];

    let outcome = done(execute(Some(2), "custom_thing", "{}", registry).unwrap());

    let ExecuteOutcome::NotExecutable(reason) = outcome else {
        panic!("nothing runs it");
    };
    assert_eq!(
        reason,
        "tool \"custom_thing\" has no runnable implementation yet — user-created tools need Integrations Service"
    );
}

#[test]
fn a_call_reaches_the_callers_own_tool_before_the_systems_and_never_a_strangers() {
    let declared = |owner: Option<u128>, marker: &str| Tool {
        sources: Some(Json::Text(marker.to_owned())),
        ..active(owner, "reading")
    };
    let registry =
        || vec![declared(None, "the system's"), declared(Some(9), "a stranger's"), declared(Some(2), "their own")];
    let reached = |caller: Option<u128>| match execute(caller, "reading", "{}", registry()).unwrap() {
        Call::Declarative { sources: Json::Text(marker), .. } => marker,
        other => panic!("{other:?}"),
    };

    assert_eq!(reached(Some(2)), "their own");
    assert_eq!(reached(Some(3)), "the system's");
    assert_eq!(reached(None), "the system's");
}

#[test]
fn an_input_that_is_no_json_is_the_callers_to_fix() {
    let error = execute(None, KB_SEARCH, "{", vec![kb_search()]).unwrap_err();
    let ToolError::InvalidRequest(reason) = &error else {
        panic!("{error:?}");
    };
    assert!(reason.contains("EOF while parsing"), "{reason}");
    assert_eq!(error.to_rpc().code, ErrorCode::InvalidArgument);
}

#[test]
fn a_name_longer_than_the_column_is_an_invalid_argument_not_a_db_error() {
    let error = NewTool::checked(
        "echo".to_owned(),
        "e".repeat(MAX_NAME_CHARS + 1),
        "Echoes input".to_owned(),
        object(),
        object(),
        Risk::ReadOnly,
        TEST_TIMEOUT_SECONDS,
    )
    .unwrap_err();

    assert!(matches!(error, ToolError::InvalidRequest(_)), "{error:?}");
}

#[test]
fn a_slug_longer_than_the_column_is_an_invalid_argument() {
    let error = NewTool::checked(
        "s".repeat(MAX_SLUG_CHARS + 1),
        "Echo".to_owned(),
        "Echoes input".to_owned(),
        object(),
        object(),
        Risk::ReadOnly,
        TEST_TIMEOUT_SECONDS,
    )
    .unwrap_err();

    assert_eq!(
        error,
        ToolError::InvalidRequest("slug is 65 characters, the maximum is 64".to_owned())
    );
}

#[test]
fn a_timeout_outside_the_validated_range_is_rejected_at_entry() {
    for timeout_seconds in [MIN_TIMEOUT_SECONDS - 1, MAX_TIMEOUT_SECONDS + 1] {
        let error = NewTool::checked(
            "echo".to_owned(),
            "Echo".to_owned(),
            "Echoes input".to_owned(),
            object(),
            object(),
            Risk::ReadOnly,
            timeout_seconds,
        )
        .unwrap_err();

        assert!(matches!(error, ToolError::InvalidRequest(_)), "{timeout_seconds}");
    }
    assert_eq!(registered_timeout(-5), 1);
    assert_eq!(registered_timeout(30), 30);
    assert_eq!(registered_timeout(i32::MAX), 300);
}

#[test]
fn a_definition_needs_its_texts_and_its_schemas() {
    let checked = |slug: &str, input: Json| {
        NewTool::checked(
            slug.to_owned(),
            "Echo".to_owned(),
            "Echoes input".to_owned(),
            input,
            object(),
            Risk::ReadOnly,
            TEST_TIMEOUT_SECONDS,
        )
    };
    assert_eq!(
        checked(" \n", object()).unwrap_err(),
        ToolError::InvalidRequest("slug is required".to_owned())
    );
    assert_eq!(
        checked("echo", Json::Array(Vec::new())).unwrap_err(),
        ToolError::InvalidRequest("input_schema and output_schema must be JSON objects".to_owned())
    );
}

#[test]
fn a_database_error_never_reaches_the_caller() {
    let leaky = r#"column "slug" of relation "tool.tools" violates constraint"#;

    let told = ToolError::Db(leaky.to_owned()).to_rpc();

    let rendered = format!("{told:?}");
    assert!(!rendered.contains("tool.tools"), "{rendered}");
    assert!(rendered.contains(INTERNAL_MESSAGE_WITHOUT_STORAGE_DETAIL), "{rendered}");
    assert_eq!(told.code, ErrorCode::Internal);
}

#[test]
fn every_error_has_its_code_and_its_words() {
    let told = ToolError::NotFound(-7).to_rpc();
    assert_eq!((told.code, told.message.as_str()), (ErrorCode::NotFound, "tool not found: -7"));
    let told = ToolError::InvalidRequest("no".to_owned()).to_rpc();
    assert_eq!((told.code, told.message.as_str()), (ErrorCode::InvalidArgument, "invalid request: no"));
    let told = ToolError::ReviewUnavailable("later".to_owned()).to_rpc();
    assert_eq!((told.code, told.message.as_str()), (ErrorCode::Unavailable, "later"));
    let told = ToolError::Json("bad".to_owned());
    assert_eq!(told.message(), "invalid json: bad");
    assert_eq!(told.to_rpc().code, ErrorCode::Internal);
    assert_eq!(ToolError::Db("down".to_owned()).message(), "database error: down");
}

#[test]
fn read_only_executes() {
    assert_eq!(check_policy(Risk::ReadOnly), PolicyDecision::Execute);
}

#[test]
fn write_requires_approval() {
    assert_eq!(check_policy(Risk::Write), PolicyDecision::RequiresApproval);
}

#[test]
fn destructive_requires_approval() {
    assert_eq!(check_policy(Risk::Destructive), PolicyDecision::RequiresApproval);
}

fn search(limit: Option<u8>) -> Search {
    Search { query: "rust".to_owned(), limit }
}

#[test]
fn a_limit_outside_the_range_names_both_bounds() {
    let error = search(Some(99)).checked_limit().expect_err("99 is over the maximum");

    assert!(error.contains(&MAX_SEARCH_LIMIT.to_string()), "{error}");
    assert!(error.contains("99"), "{error}");
    assert_eq!(error, "limit must be between 1 and 20, got 99");
    assert!(search(Some(0)).checked_limit().is_err());
    assert_eq!(search(None).checked_limit(), Ok(DEFAULT_SEARCH_LIMIT));
    assert_eq!(begin_search(Ok(search(Some(20)))), Ok(("rust".to_owned(), 20)));
}

fn fetch(url: Option<&str>, urls: Option<Vec<&str>>) -> Fetch {
    Fetch {
        url: url.map(str::to_owned),
        urls: urls.map(|urls| urls.into_iter().map(str::to_owned).collect()),
    }
}

#[test]
fn one_url_and_many_urls_are_both_accepted() {
    let one = fetch(Some("https://example.com"), None).checked_urls().expect("one url");
    assert_eq!(one.len(), 1);

    let many = fetch(None, Some(vec!["https://a.example", "https://b.example"]))
        .checked_urls()
        .expect("two urls");
    assert_eq!(many.len(), 2);

    let both = fetch(Some("https://example.com"), Some(vec!["https://a.example"])).checked_urls();
    assert_eq!(both, Ok(vec!["https://a.example".to_owned()]));
}

#[test]
fn fetching_with_no_url_at_all_is_refused() {
    fetch(None, None).checked_urls().expect_err("neither url nor urls");
    assert_eq!(
        begin_fetch(Ok(fetch(None, Some(Vec::new())))),
        Err(ExecuteOutcome::Error("url is required".to_owned()))
    );
}

#[test]
fn more_urls_than_the_cap_are_refused_naming_it() {
    let too_many: Vec<String> = (0..=MAX_URLS).map(|i| format!("https://{i}.example")).collect();

    let error = Fetch { url: None, urls: Some(too_many) }.checked_urls().expect_err("over the cap");

    assert!(error.contains(&MAX_URLS.to_string()), "{error}");
}

#[test]
fn nothing_is_fetched_unless_every_url_is_public() {
    assert_eq!(ensure_all_urls_public(&vec![None, None]), None);
    assert_eq!(
        ensure_all_urls_public(&vec![None, Some("first".to_owned()), Some("second".to_owned())]),
        Some("first".to_owned())
    );
}

#[test]
fn a_document_is_read_at_its_latest_version_where_none_is_named() {
    let wanted = ReadDocument { source: "wiki".to_owned(), source_id: "42".to_owned(), version: None };
    assert_eq!(begin_read(Ok(wanted)), Ok(("wiki".to_owned(), "42".to_owned(), String::new())));
    assert_eq!(
        begin_read(Err("missing field `source`".to_owned())),
        Err(ExecuteOutcome::Error("missing field `source`".to_owned()))
    );
}

#[test]
fn a_call_is_answered_by_its_outcome() {
    let answer = execute_response(finished(Ok(object())));
    assert_eq!(answer.status, ExecuteStatus::Succeeded);
    assert_eq!((answer.output_json.as_str(), answer.error_message.as_str()), ("{\"type\":\"object\"}", ""));
    let answer = execute_response(finished(Err("down".to_owned())));
    assert_eq!(answer.status, ExecuteStatus::Failed);
    assert_eq!((answer.output_json.as_str(), answer.error_message.as_str()), ("", "down"));
    let answer = execute_response(ExecuteOutcome::RequiresApproval);
    assert_eq!(answer.status, ExecuteStatus::RequiresApproval);
    let answer = execute_response(ExecuteOutcome::NotExecutable("no".to_owned()));
    assert_eq!((answer.status, answer.error_message.as_str()), (ExecuteStatus::NotExecutable, "no"));
}

#[test]
fn a_catalog_shows_each_tool_by_its_id_and_its_schema() {
    let listed = list_response(&vec![active(None, "shared")]);
    assert_eq!(listed.len(), 1);
    assert_eq!(listed[0].id, "11");
    assert_eq!(listed[0].slug, "shared");
    assert_eq!(listed[0].input_schema_json, "{\"type\":\"object\"}");
    assert_eq!((listed[0].risk, listed[0].status), (Risk::ReadOnly, Status::Active));
}

fn creating(slug: &str, input_schema_json: &str, risk: Option<Risk>) -> CreateToolRequest {
    CreateToolRequest {
        slug: slug.to_owned(),
        name: "Echo".to_owned(),
        description: "Echoes input".to_owned(),
        input_schema_json: input_schema_json.to_owned(),
        output_schema_json: "{}".to_owned(),
        risk,
        risk_shown: "Unknown(9)".to_owned(),
        timeout_seconds: 30,
    }
}

#[test]
fn a_request_creates_a_draft_of_whoever_asked() {
    let row = begin_create(Some(2), creating("echo", r#"{"n": 1.5}"#, Some(Risk::Write))).unwrap();
    assert_eq!((row.user_id, row.status, row.risk), (Some(2), Status::Draft, Risk::Write));
    assert_eq!(
        row.input_schema,
        Json::Object(vec![("n".to_owned(), Json::Number(Number::Float(1.5f64.to_bits())))])
    );
}

#[test]
fn a_request_is_refused_for_the_first_thing_wrong_with_it() {
    let refused = |principal: Option<u128>, request: CreateToolRequest| {
        let error = begin_create(principal, request).unwrap_err();
        assert_eq!(error.code, ErrorCode::InvalidArgument);
        error.message
    };
    assert_eq!(
        refused(None, creating("echo", "{", None)),
        "CreateTool needs a Principal in the request metadata"
    );
    assert!(refused(Some(2), creating("echo", "{", None)).contains("EOF while parsing"));
    assert_eq!(
        refused(Some(2), creating("echo", "{}", None)),
        "risk must be one of READ_ONLY, WRITE, DESTRUCTIVE, got Unknown(9)"
    );
    assert_eq!(
        refused(Some(2), creating("", "{}", Some(Risk::ReadOnly))),
        "invalid request: slug is required"
    );
    assert_eq!(
        refused(Some(2), creating(WEB_SEARCH, "{}", Some(Risk::ReadOnly))),
        "invalid request: slug \"web_search\" is reserved for a system tool"
    );
    assert_eq!(risk_from_proto(Some(Risk::Destructive), ""), Ok(Risk::Destructive));
}

#[test]
fn a_tool_is_addressed_by_its_id_and_its_owner() {
    assert_eq!(addressed(Some(2), "ValidateTool", "-9223372036854775808"), Ok((i64::MIN, 2)));
    assert_eq!(addressed(Some(2), "ValidateTool", "+12"), Ok((12, 2)));
    for wrong in ["", "-", "+", "1.5", "-+1", "9223372036854775808", " 1"] {
        assert_eq!(
            addressed(Some(2), "ValidateTool", wrong).unwrap_err().message,
            "tool_id is not a valid id",
            "{wrong:?}"
        );
    }
    assert_eq!(
        addressed(None, "ActivateTool", "12").unwrap_err().message,
        "ActivateTool needs a Principal in the request metadata"
    );
}

#[test]
fn only_the_failure_to_drop_the_manual_index_is_ignored() {
    let message = "constraint \"tools_owner_slug_idx\" of relation \"tools\" does not exist";
    assert!(is_missing_manual_unique_index(Some("42704"), message));
    assert!(!is_missing_manual_unique_index(Some("42P01"), message));
    assert!(!is_missing_manual_unique_index(Some("42704"), "constraint \"other\" does not exist"));
    assert!(!is_missing_manual_unique_index(None, message));
}
