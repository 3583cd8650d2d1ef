//! Tools that declare their sources, and the file they come from.

use llm_tools::json::{Json, Number};
use llm_tools::tool::built_in_overrides::{apply, load, withdraw, Override};
use llm_tools::tool::declarative_seed::{
    declarative_new_tool, read_rows, update_declarative_tool, DeclarativeRow,
};
use llm_tools::tool::entity::{Risk, Status, Tool};
use llm_tools::tool::error::ToolError;
use llm_tools::tool::race::{Fault, Race};
use llm_tools::tool::service::{begin_declarative, list_tools, ExecuteOutcome};
use llm_tools::tool::slugs::{ALL, WEB_FETCH};
use llm_tools::tool::system_tools::{
    activate_without_llm_review, seeding_already_finished, system_new_tool, system_tool_definitions, SystemTool,
};
use llm_tools::tool::tools::declarative::{
    conclude, fill, fill_path, parse_sources, pick_value, plan, read_reply, refusal, Source, SourceSet, MAX_BODY_BYTES,
};

fn value(read: serde_json::Value) -> Json {
    match read {
        serde_json::Value::Null => Json::Null,
        serde_json::Value::Bool(b) => Json::Bool(b),
        serde_json::Value::Number(n) => Json::Number(if let Some(n) = n.as_u64() {
            Number::PosInt(n)
        } else if let Some(n) = n.as_i64() {
            Number::NegInt(n)
        } else {
            Number::Float(n.as_f64().unwrap().to_bits())
        }),
        serde_json::Value::String(text) => Json::Text(text),
        serde_json::Value::Array(items) => Json::Array(items.into_iter().map(value).collect()),
        serde_json::Value::Object(entries) => {
            Json::Object(entries.into_iter().map(|(k, v)| (k, value(v))).collect())
        }
    }
}

fn json(text: &str) -> Json {
    value(serde_json::from_str(text).unwrap())
}

fn source(name: &str, url: &str, pick: &str) -> Source {
    Source { name: name.to_owned(), url: url.to_owned(), pick: pick.to_owned() }
}

fn set_of(sources: Vec<Source>, fan_out: usize, take: usize) -> SourceSet {
    SourceSet { fan_out, take, sources }
}

fn place() -> Json {
    json(r#"{"type": "object", "properties": {"place": {"type": "string"}}}"#)
}

fn nothing() -> Json {
    json(r#"{"type": "object", "properties": {}}"#)
}

#[test]
fn a_well_formed_set_is_parsed_in_full() {
    let read = set_of(
        vec![
            source("one", "https://example.com/?q={place}", "reading.value"),
            source("two", "https://example.org/{place}", "value"),
        ],
        3,
        2,
    );
    let set = parse_sources(Ok(read), &place()).expect("parse");
    assert_eq!(set.fan_out, 3);
    assert_eq!(set.take, 2);
    assert_eq!(set.sources.len(), 2);
    assert_eq!(set.sources[0].pick, "reading.value");
}

#[test]
fn a_placeholder_the_input_schema_does_not_declare_is_refused() {
    let read = set_of(vec![source("one", "https://example.com/?q={elsewhere}", "value")], 1, 1);
    let error = parse_sources(Ok(read), &place()).expect_err("elsewhere is not an input field");
    assert!(error.contains("elsewhere"), "{error}");
}

#[test]
fn a_pick_naming_a_field_the_input_schema_does_not_declare_is_refused() {
    let read = set_of(vec![source("one", "https://example.com/", "rates.{elsewhere}")], 1, 1);
    let error =
        parse_sources(Ok(read), &place()).expect_err("a pick gets the same check a url does");
    assert!(error.contains("elsewhere"), "{error}");
    assert!(error.contains("rates.{elsewhere}"), "{error}");
}

#[test]
fn an_argument_carrying_the_path_separator_is_refused_by_a_pick_but_not_by_a_url() {
    let input = json(r#"{"to": "a.b"}"#);
    let error = fill_path("rates.{to}", &input).expect_err("a dot would walk a level deeper");
    assert!(error.contains("to"), "{error}");
    assert_eq!(
        fill("https://e.test/?q={to}", &input).expect("a url encodes it instead"),
        "https://e.test/?q=a.b"
    );
}

#[test]
fn a_pick_is_filled_verbatim_while_a_url_is_encoded() {
    let input = json(r#"{"name": "euro zone"}"#);
    assert_eq!(fill("https://e.test/{name}", &input).expect("fill"), "https://e.test/euro%20zone");
    assert_eq!(fill_path("rates.{name}", &input).expect("fill"), "rates.euro zone");
}

#[test]
fn a_value_that_reads_like_a_placeholder_is_put_in_as_it_is() {
    let input = json(r#"{"x": "{y}", "y": "b"}"#);
    assert_eq!(fill_path("a.{x}{y}", &input).expect("fill"), "a.{y}b");
    assert_eq!(fill_path("{y}{x}{y}", &input).expect("fill"), "b{y}b");
    assert_eq!(fill("https://example.com/{x}/{y}", &input).expect("fill"), "https://example.com/%7By%7D/b");
}

#[test]
fn an_open_brace_is_told_before_a_field_the_input_does_not_carry() {
    let error = fill("{missing}{open", &json("{}")).expect_err("neither can be filled");
    assert_eq!(error, "\"{missing}{open\" has a { with no closing }");
    let error = fill("{missing}", &json("{}")).expect_err("nothing to fill in");
    assert_eq!(error, "input does not carry \"missing\"");
}

#[test]
fn take_larger_than_the_sources_is_refused() {
    let read = set_of(vec![source("one", "https://example.com/", "value")], 1, 4);
    let error = parse_sources(Ok(read), &nothing()).expect_err("take exceeds sources");
    assert!(error.contains("take"), "{error}");
}

#[test]
fn an_empty_source_list_is_refused() {
    assert!(parse_sources(Ok(set_of(Vec::new(), 1, 1)), &nothing()).is_err());
}

#[test]
fn a_fan_out_of_nothing_is_refused() {
    let read = set_of(vec![source("one", "https://example.com/", "value")], 0, 1);
    assert_eq!(parse_sources(Ok(read), &nothing()), Err("fan_out must be at least 1".to_owned()));
}

#[test]
fn an_unclosed_placeholder_is_refused() {
    let read = set_of(vec![source("one", "https://example.com/{place", "value")], 1, 1);
    let error = parse_sources(Ok(read), &place()).expect_err("unclosed placeholder");
    assert!(error.contains("one"), "{error}");
}

#[test]
fn duplicate_source_names_are_refused() {
    let read = set_of(
        vec![
            source("dup", "https://example.com/a", "value"),
            source("dup", "https://example.com/b", "value"),
        ],
        2,
        1,
    );
    let error = parse_sources(Ok(read), &nothing()).expect_err("duplicate names");
    assert!(error.contains("dup"), "{error}");
}

#[test]
fn an_empty_pick_is_refused() {
    let read = set_of(vec![source("one", "https://example.com/", "")], 1, 1);
    let error = parse_sources(Ok(read), &nothing()).expect_err("empty pick");
    assert!(error.contains("pick"), "{error}");
}

#[test]
fn sources_that_could_not_be_read_say_why() {
    assert_eq!(
        parse_sources(Err("missing field `take`".to_owned()), &nothing()),
        Err("sources: missing field `take`".to_owned())
    );
    assert_eq!(
        begin_declarative(Err("missing field `take`".to_owned()), &nothing()),
        Err(ExecuteOutcome::NotExecutable("sources: missing field `take`".to_owned()))
    );
}

#[test]
fn fill_refuses_an_unclosed_placeholder_rather_than_diverging_from_parse_sources() {
    let error = fill("https://example.com/{place", &json(r#"{"place": "x"}"#)).expect_err("unclosed");
    assert!(error.contains('{'), "{error}");
}

#[test]
fn a_filled_value_is_url_encoded() {
    let filled = fill(
        "https://example.com/?q={place}",
        &json(r#"{"place": "Example Place & Other"}"#),
    )
    .expect("fill");
    assert_eq!(filled, "https://example.com/?q=Example%20Place%20%26%20Other");
}

#[test]
fn a_missing_input_value_names_the_field_it_wanted() {
    let error = fill("https://example.com/?q={place}", &json("{}")).expect_err("no place");
    assert!(error.contains("place"), "{error}");
}

#[test]
fn a_number_input_fills_without_its_json_quotes() {
    let filled =
        fill("https://example.com/?v={coord}", &json(r#"{"coord": 37.77}"#)).expect("fill");
    assert_eq!(filled, "https://example.com/?v=37.77");
}

#[test]
fn a_dotted_path_reaches_a_nested_value() {
    let body = json(r#"{"reading": {"value": 14.2}}"#);
    assert_eq!(pick_value(&body, "reading.value"), Some(json("14.2")));
}

#[test]
fn a_path_that_is_not_there_is_none_rather_than_null() {
    let body = json(r#"{"reading": {"value": 14.2}}"#);
    assert_eq!(pick_value(&body, "reading.other"), None);
}

#[test]
fn a_numeric_segment_indexes_an_array() {
    let body = json(r#"{"readings": [{"value": 14.2}, {"value": 9.9}]}"#);
    assert_eq!(pick_value(&body, "readings.0.value"), Some(json("14.2")));
    assert_eq!(pick_value(&body, "readings.1.value"), Some(json("9.9")));
    assert_eq!(pick_value(&body, "readings.2.value"), None);
}

#[test]
fn a_numeric_key_on_an_object_still_wins_over_array_indexing() {
    let body = json(r#"{"by_hour": {"0": {"value": 1.0}}}"#);
    assert_eq!(pick_value(&body, "by_hour.0.value"), Some(json("1.0")));
}

#[test]
fn only_a_segment_of_digits_indexes_a_list() {
    let body = json("[10, 20]");
    assert_eq!(pick_value(&body, "1"), Some(json("20")));
    assert_eq!(pick_value(&body, "01"), Some(json("20")));
    for path in ["+1", "-1", "", "1a", "2", "99999999999999999999999"] {
        assert_eq!(pick_value(&body, path), None, "{path}");
    }
}

/// Runs the sources of a set against scripted replies, one for each source by its place, the guard letting all pass.
fn run(set: &SourceSet, input: &str, replies: &[&str]) -> Result<Json, String> {
    let guards = set.sources.iter().map(|_| None).collect();
    let planned = plan(set, &json(input), &guards);
    let names: Vec<String> = planned.ready.iter().map(|ready| ready.name.clone()).collect();
    let mut race: Race<Json> = Race::new(names, set.fan_out, set.take, 5_000_000_000);
    while !race.is_over() {
        let op = race.running()[0];
        let ready = &planned.ready[op];
        let place = set.sources.iter().position(|source| source.name == ready.name).unwrap();
        let answer = read_reply(200, &replies[place].as_bytes().to_vec(), &ready.pick);
        race.finished(op, answer.map_err(Fault::Said));
    }
    let outcome = race.outcome();
    conclude(planned.refused, &outcome.taken, &outcome.failures)
}

#[test]
fn two_answers_come_back_with_the_sources_that_gave_them() {
    let set = set_of(
        vec![
            source("one", "https://one.test/", "current.t"),
            source("two", "https://two.test/", "current.t"),
        ],
        2,
        2,
    );
    let out = run(&set, "{}", &[r#"{"current": {"t": 14.2}}"#, r#"{"current": {"t": 14.0}}"#])
        .expect("both answer");
    let Some(Json::Array(values)) = out.get("values") else {
        panic!("values are a list");
    };
    assert_eq!(values.len(), 2);
    let names: Vec<&str> = values.iter().map(|value| value.str_at("source").unwrap()).collect();
    assert!(names.contains(&"one") && names.contains(&"two"), "{names:?}");
}

#[test]
fn a_pick_whose_path_depends_on_the_argument_reaches_the_value() {
    let set = set_of(vec![source("one", "https://one.test/", "rates.{to}")], 1, 1);
    let out = run(&set, r#"{"to": "EUR"}"#, &[r#"{"rates": {"EUR": 0.87, "JPY": 147.0}}"#])
        .expect("the source answers");
    assert_eq!(pick_value(&out, "values.0.value"), Some(json("0.87")));
}

#[test]
fn a_picked_key_carrying_a_space_is_not_percent_encoded() {
    let set = set_of(vec![source("one", "https://one.test/", "rates.{to}")], 1, 1);
    let out = run(&set, r#"{"to": "euro zone"}"#, &[r#"{"rates": {"euro zone": 1.5}}"#])
        .expect("the source answers");
    assert_eq!(pick_value(&out, "values.0.value"), Some(json("1.5")));
}

#[test]
fn a_pick_whose_field_the_caller_omitted_refuses_that_source_without_asking_anyone() {
    let set = set_of(vec![source("one", "https://e.test/", "rates.{to}")], 1, 1);
    let error = run(&set, "{}", &["unused"]).expect_err("the only source cannot be filled");
    assert!(error.contains("one") && error.contains("\"to\""), "{error}");
}

#[test]
fn a_pick_argument_carrying_the_path_separator_refuses_that_source_through_run() {
    let set = set_of(vec![source("one", "https://e.test/", "rates.{to}")], 1, 1);
    let error =
        run(&set, r#"{"to": "a.b"}"#, &["unused"]).expect_err("a dot in the argument is refused");
    assert!(error.contains("one") && error.contains('.'), "{error}");
}

#[test]
fn a_private_address_is_refused_before_any_request_goes_out() {
    let set = set_of(vec![source("local", "http://127.0.0.1:9/", "t")], 1, 1);
    let guards = vec![Some("url host is not public".to_owned())];
    let planned = plan(&set, &json("{}"), &guards);
    assert!(planned.ready.is_empty());
    let error = conclude(planned.refused, &Vec::new(), &Vec::new()).expect_err("loopback must be refused");
    assert!(error.contains("local"), "{error}");
}

#[test]
fn a_pick_that_finds_nothing_fails_that_source_not_the_whole_race() {
    let set = set_of(
        vec![
            source("thin", "https://thin.test/", "current.t"),
            source("good", "https://good.test/", "current.t"),
        ],
        2,
        1,
    );
    let out = run(&set, "{}", &[r#"{"current": {}}"#, r#"{"current": {"t": 14.2}}"#])
        .expect("the good source answers");
    let Some(Json::Array(values)) = out.get("values") else {
        panic!("values are a list");
    };
    assert_eq!(values.len(), 1);
    assert_eq!(values[0].str_at("source"), Some("good"));
}

#[test]
fn every_source_failing_names_each_one() {
    let set = set_of(
        vec![source("one", "https://203.0.113.1/", "t"), source("two", "https://203.0.113.2/", "t")],
        2,
        1,
    );
    let error = run(&set, "{}", &["not json", "[]"]).expect_err("neither answers");
    assert!(error.contains("one") && error.contains("two"), "{error}");
}

#[test]
fn declarative_an_endless_body_is_abandoned_once_it_passes_the_cap() {
    let body = vec![b'x'; MAX_BODY_BYTES + 1];
    let error = read_reply(200, &body, "t").unwrap_err();
    assert!(error.contains(&MAX_BODY_BYTES.to_string()), "{error}");
}

#[test]
fn a_source_that_answers_with_a_failure_is_told_by_its_status() {
    let error = read_reply(503, &b"{}".to_vec(), "t").unwrap_err();
    assert!(error.contains("503 Service Unavailable"), "{error}");
    assert_eq!(refusal("one", "no"), "one: no");
}

fn row(slug: &str) -> DeclarativeRow {
    DeclarativeRow {
        slug: slug.to_owned(),
        name: "Example reading".to_owned(),
        description: "Returns a reading from several independent providers at once.".to_owned(),
        timeout_seconds: 8,
        input_schema: json(
            r#"{"type": "object", "required": ["place"], "properties": {"place": {"type": "string"}}}"#,
        ),
        sources: json(r#"{"fan_out": 2, "take": 1, "sources": []}"#),
    }
}

fn sources(field: &str) -> Result<SourceSet, String> {
    Ok(set_of(
        vec![
            source("alpha", &format!("https://alpha.example.com/?q={{{field}}}"), "reading.value"),
            source("beta", &format!("https://beta.example.com/{{{field}}}"), "value"),
        ],
        2,
        1,
    ))
}

#[test]
fn a_well_formed_file_is_read_in_full() {
    let rows = read_rows(Ok(vec![(row("example_reading"), sources("place"))])).expect("read");
    assert_eq!(rows.len(), 1);
    assert_eq!(rows[0].slug, "example_reading");
    assert_eq!(rows[0].timeout_seconds, 8);
}

#[test]
fn a_row_whose_sources_do_not_parse_is_refused_by_name() {
    let error = read_rows(Ok(vec![(row("example_reading"), sources("elsewhere"))]))
        .expect_err("elsewhere is not an input field");
    assert!(error.contains("example_reading"), "{error}");
    assert!(error.contains("elsewhere"), "{error}");
}

#[test]
fn a_row_claiming_a_reserved_slug_is_refused() {
    for slug in ALL {
        let error = read_rows(Ok(vec![(row(slug), sources("place"))]))
            .expect_err("a system slug may not be taken");
        assert!(error.contains(slug), "{error}");
    }
    let error = read_rows(Ok(vec![(row(WEB_FETCH), sources("place"))])).unwrap_err();
    assert_eq!(error, "\"web_fetch\" is a reserved system slug");
}

#[test]
fn a_duplicate_slug_in_one_file_is_refused() {
    let twice = vec![
        (row("example_reading"), sources("place")),
        (row("other_reading"), sources("place")),
        (row("example_reading"), sources("place")),
    ];
    assert_eq!(read_rows(Ok(twice)), Err("\"example_reading\" appears twice".to_owned()));
}

#[test]
fn text_that_is_not_json_names_the_problem_rather_than_panicking() {
    assert_eq!(
        read_rows(Err("expected ident at line 1 column 2".to_owned())),
        Err("could not be read as JSON: expected ident at line 1 column 2".to_owned())
    );
}

#[test]
fn an_empty_list_is_fine_and_loads_nothing() {
    assert_eq!(read_rows(Ok(Vec::new())).expect("read").len(), 0);
}

fn stored(slug: &str) -> Tool {
    Tool {
        id: 7,
        user_id: None,
        slug: slug.to_owned(),
        name: "Old name".to_owned(),
        description: "Old description".to_owned(),
        input_schema: json("{}"),
        output_schema: json(r#"{"type": "object"}"#),
        connection_id: None,
        risk: Risk::Write,
        timeout_seconds: 3,
        status: Status::Draft,
        sources: None,
    }
}

#[test]
fn a_loaded_row_is_a_system_row_whose_risk_this_code_decided() {
    declarative_new_tool(&row("example_reading")).expect("a sound row is registered");

    let loaded = update_declarative_tool(stored("example_reading"), &row("example_reading"));

    assert_eq!(loaded.user_id, None);
    assert_eq!(loaded.status, Status::Active);
    assert_eq!(loaded.risk, Risk::ReadOnly);
    assert!(loaded.sources.is_some());
    assert_eq!((loaded.id, loaded.timeout_seconds), (7, 8));
    assert_eq!(loaded.name, "Example reading");
}

#[test]
fn a_row_whose_timeout_is_out_of_range_is_not_registered() {
    let slow = DeclarativeRow { timeout_seconds: 301, ..row("example_reading") };
    assert_eq!(
        declarative_new_tool(&slow).unwrap_err(),
        ToolError::InvalidRequest("timeout_seconds must be between 1 and 300, got 301".to_owned())
    );
}

#[test]
fn an_unreadable_file_leaves_the_binarys_own_declarations_standing() {
    let read = Err("/nonexistent/built-in-tools.json: No such file or directory (os error 2)".to_owned());
    assert!(load(read).is_empty());
}

fn definitions() -> Vec<SystemTool> {
    let schema = json(r#"{"type": "object"}"#);
    system_tool_definitions(&schema, &schema, &schema)
}

fn said(description: Option<&str>, enabled: Option<bool>) -> Override {
    Override { name: None, description: description.map(str::to_owned), enabled }
}

#[test]
fn an_entry_states_only_what_it_changes() {
    let overrides = load(Ok(vec![("kb_search".to_owned(), said(Some("covers the manuals"), None))]));
    let entry = &overrides[0].1;
    assert_eq!(entry.description.as_deref(), Some("covers the manuals"));
    assert!(entry.name.is_none() && entry.enabled.is_none());

    for definition in definitions() {
        let slug = definition.slug.clone();
        let name = definition.name.clone();
        let before = definition.description.clone();
        let declared = apply(definition, &overrides).expect("still declared");
        assert_eq!(declared.name, name);
        if slug == "kb_search" {
            assert_eq!(declared.description, "covers the manuals");
        } else {
            assert_eq!(declared.description, before);
        }
    }
}

#[test]
fn a_tool_can_be_taken_out_of_circulation() {
    let overrides = load(Ok(vec![("web_search".to_owned(), said(None, Some(false)))]));
    assert_eq!(overrides[0].1.enabled, Some(false));

    let declared: Vec<String> = definitions()
        .into_iter()
        .filter_map(|definition| apply(definition, &overrides))
        .map(|definition| definition.slug)
        .collect();
    assert_eq!(declared, ["web_fetch", "kb_search", "kb_read_document"]);
    let row = Tool { status: Status::Active, ..stored("web_search") };
    assert!(list_tools(None, vec![withdraw(row)]).is_empty());
}

#[test]
fn a_seeded_tool_is_left_alone_until_its_declaration_changes() {
    let definition = definitions().remove(0);
    assert!(!seeding_already_finished(None, &definition));
    assert!(!seeding_already_finished(Some(&stored("web_search")), &definition));

    let seeded = activate_without_llm_review(stored("web_search"), &definition);
    assert_eq!(seeded.status, Status::Active);
    assert!(seeding_already_finished(Some(&seeded), &definition));

    let changed = SystemTool { description: "Searches.".to_owned(), ..definition };
    assert!(!seeding_already_finished(Some(&seeded), &changed));
    assert!(definitions().iter().all(|definition| system_new_tool(definition).is_ok()));
}

#[test]
fn reloading_updates_the_same_row_rather_than_duplicating_it() {
    let once = update_declarative_tool(stored("example_reading"), &row("example_reading"));
    let id = once.id;
    let changed = DeclarativeRow { description: "Changed.".to_owned(), ..row("example_reading") };
    let twice = update_declarative_tool(once, &changed);
    assert_eq!((twice.id, twice.slug.as_str()), (id, "example_reading"));
    assert_eq!(twice.description, "Changed.");
}
