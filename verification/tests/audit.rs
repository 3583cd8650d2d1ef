//! What every call leaves behind, and how long.

use llm_tools::json::{Json, Number};
use llm_tools::llm_router::audit::{bounded_model_name, Finish, Outcome, Tier, MODEL_NAME_BYTES};
use llm_tools::llm_router::decisions::DecisionAttempt;
use llm_tools::llm_router::log::{record, record_decision};
use llm_tools::llm_router::partition::{
    add_months, drop_statement, lock_statement, month_of, months_to_open, open_statement, parents, partition_name,
    past_retention, plain_parents, subtract_months, Month, Parent, Swept, MONTHS_OPEN_AHEAD, PAYLOAD_RETENTION_MONTHS,
};
use llm_tools::llm_router::provider::{FinishReason, QualityTier};
use llm_tools::llm_router::service::Attempt;

#[test]
fn a_name_the_column_holds_is_left_alone() {
    assert_eq!(bounded_model_name("jev-1.13.0".to_owned()), "jev-1.13.0");
}

#[test]
fn a_name_longer_than_the_column_is_cut_on_a_character_boundary() {
    let cut = bounded_model_name("é".repeat(MODEL_NAME_BYTES));

    assert!(cut.len() <= MODEL_NAME_BYTES);
    assert_eq!(cut, "é".repeat(MODEL_NAME_BYTES / 2));
}

fn at(year: u32, month: u32) -> Month {
    Month { year, month }
}

fn days_between(from: Month, to: Month) -> i64 {
    let day = |month: Month| chrono::NaiveDate::from_ymd_opt(month.year as i32, month.month, 1).unwrap();
    (day(to) - day(from)).num_days()
}

fn index(month: Month) -> u32 {
    month.year * 12 + month.month
}

#[test]
fn a_payload_is_kept_for_at_least_the_month_it_landed_in_and_the_one_before() {
    let payloads = Parent::DecisionPayloads.table();
    let cutoff = subtract_months(at(2026, 11), PAYLOAD_RETENTION_MONTHS);

    assert_eq!(cutoff, at(2026, 10));
    assert!(
        month_of(payloads, "decision_payloads_y2026m09").map(index) < Some(index(cutoff)),
        "a payload from September is gone once November opens, 31 days after the month closed"
    );
    assert!(
        month_of(payloads, "decision_payloads_y2026m10").map(index) >= Some(index(cutoff)),
        "a payload from October is still within the month partition retention keeps"
    );
    let there = vec!["decision_payloads_y2026m09".to_owned(), "decision_payloads_y2026m10".to_owned()];
    assert_eq!(
        past_retention(payloads, &there, at(2026, 11), PAYLOAD_RETENTION_MONTHS),
        ["decision_payloads_y2026m09"]
    );
}

#[test]
fn the_shortest_retention_is_the_length_of_february() {
    let payloads = Parent::DecisionPayloads.table();
    let march = subtract_months(at(2026, 3), PAYLOAD_RETENTION_MONTHS);

    assert_eq!(march, at(2026, 2));
    assert!(
        month_of(payloads, "decision_payloads_y2026m01").map(index) < Some(index(march)),
        "a payload written on 31 January is dropped as March opens, 28 days later"
    );
    assert_eq!(
        days_between(at(2026, 2), at(2026, 3)),
        28,
        "the intervening month is the whole of the minimum"
    );
    assert_eq!(
        days_between(at(2025, 1), at(2025, 3)),
        59,
        "a payload written on 1 January survives January and February"
    );
    assert_eq!(
        days_between(at(2026, 7), at(2026, 9)),
        62,
        "and the longest any payload lives is a 31-day month followed by another"
    );
}

#[test]
fn a_sweep_leaves_alone_what_is_no_partition_of_its_table() {
    let there = vec![
        "request_payloads_y2024m03".to_owned(),
        "request_payloads_y2024m13".to_owned(),
        "request_payloads_old".to_owned(),
        "decision_payloads_y2024m03".to_owned(),
    ];
    assert_eq!(
        past_retention("request_payloads", &there, at(2026, 9), PAYLOAD_RETENTION_MONTHS),
        ["request_payloads_y2024m03"]
    );
}

#[test]
fn months_turn_over_the_year() {
    assert_eq!(add_months(at(2026, 12), 1), at(2027, 1));
    assert_eq!(subtract_months(at(2026, 1), 1), at(2025, 12));
    assert_eq!(months_to_open(at(2026, 12), MONTHS_OPEN_AHEAD), [at(2026, 12), at(2027, 1)]);
}

#[test]
fn a_partition_is_named_by_its_month() {
    assert_eq!(partition_name("decisions", at(2026, 9)), "decisions_y2026m09");
    assert_eq!(month_of("decisions", "decisions_y2026m09"), Some(at(2026, 9)));
    assert_eq!(month_of("decisions", "decision_payloads_y2026m09"), None);
}

#[test]
fn a_partition_runs_from_one_month_to_the_next() {
    assert_eq!(
        open_statement("requests", at(2026, 12)),
        "CREATE TABLE IF NOT EXISTS llm_router.requests_y2026m12 PARTITION OF llm_router.requests \
         FOR VALUES FROM ('2026-12-01 00:00:00+00') TO ('2027-01-01 00:00:00+00')"
    );
    assert_eq!(drop_statement("requests_y2024m03"), "DROP TABLE IF EXISTS llm_router.requests_y2024m03");
    assert_eq!(lock_statement(), "SELECT pg_advisory_xact_lock(7812739791860101748)");
}

#[test]
fn a_parent_that_came_up_as_a_plain_table_is_named() {
    assert_eq!(parents().len(), 4);
    assert!(plain_parents(&vec![true, true, true, true]).is_empty());
    assert_eq!(plain_parents(&vec![false, true, true, true]), ["requests"]);
    assert!(parents().iter().all(|parent| parent.statement().contains("PARTITION BY RANGE (created_at)")));
}

#[test]
fn a_fresh_database_has_nothing_to_sweep() {
    assert!(Swept { request_payloads: Vec::new(), decision_payloads: Vec::new() }.is_empty());
    assert!(!Swept { request_payloads: vec!["x".to_owned()], decision_payloads: Vec::new() }.is_empty());
}

#[test]
fn a_recorded_call_keeps_both_its_statistics_and_its_payloads() {
    let (row, payload) = record(Attempt {
        tier: QualityTier::Low,
        model_used: "deepseek/deepseek-v4-flash".to_owned(),
        used_backup: false,
        tokens_in: 10,
        tokens_out: 2,
        latency_ms: 431,
        outcome: Outcome::Answered,
        finish_reason: FinishReason::Stop,
        sent: Json::Text("sent".to_owned()),
        received: Json::Text("received".to_owned()),
    });

    assert_eq!((row.tier, row.tier.text()), (Tier::Low, "low"));
    assert_eq!(row.model_used, "deepseek/deepseek-v4-flash");
    assert!(!row.used_backup);
    assert_eq!((row.tokens_in, row.tokens_out, row.latency_ms), (10, 2, 431));
    assert_eq!((row.outcome, row.outcome.text()), (Outcome::Answered, "answered"));
    assert_eq!((row.finish_reason, row.finish_reason.text()), (Finish::Stop, "stop"));
    assert_eq!(payload.sent, Json::Text("sent".to_owned()));
    assert_eq!(payload.received, Json::Text("received".to_owned()));
}

#[test]
fn a_model_name_longer_than_the_column_still_records_the_call() {
    let (row, payload) = record_decision(DecisionAttempt {
        model_used: "m".repeat(MODEL_NAME_BYTES + 1),
        questions: 3,
        tokens_in: 312,
        tokens_out: 48,
        latency_ms: 274,
        outcome: Outcome::Failed,
        sent: Json::Null,
        received: Json::Bool(true),
    });

    assert_eq!(row.model_used, "m".repeat(MODEL_NAME_BYTES));
    assert_eq!((row.questions, row.tokens_in, row.tokens_out, row.latency_ms), (3, 312, 48, 274));
    assert_eq!((row.outcome, row.outcome.text()), (Outcome::Failed, "failed"));
    assert_eq!((payload.sent, payload.received), (Json::Null, Json::Bool(true)));
}

fn json_text(entries: Vec<(&str, &str)>) -> Json {
    Json::Object(entries.into_iter().map(|(k, v)| (k.to_owned(), Json::Text(v.to_owned()))).collect())
}

#[test]
fn a_failed_call_is_recorded_with_what_went_wrong() {
    let (row, payload) = record(Attempt {
        tier: QualityTier::Low,
        model_used: "deepseek/deepseek-v4-flash".to_owned(),
        used_backup: false,
        tokens_in: 0,
        tokens_out: 0,
        latency_ms: 431,
        outcome: Outcome::Failed,
        finish_reason: FinishReason::Unspecified,
        sent: json_text(vec![("model", "deepseek/deepseek-v4-flash")]),
        received: json_text(vec![("error", "the provider answered 503")]),
    });

    assert_eq!(row.outcome, Outcome::Failed);
    assert_eq!(row.finish_reason, Finish::Unspecified);
    assert_eq!(payload.received.str_at("error"), Some("the provider answered 503"));
}

#[test]
fn a_recorded_decision_keeps_both_its_statistics_and_its_payloads() {
    let noul = Json::Number(Number::Float(0.92f64.to_bits()));
    let (row, payload) = record_decision(DecisionAttempt {
        model_used: "jev-1.13.0".to_owned(),
        questions: 3,
        tokens_in: 312,
        tokens_out: 48,
        latency_ms: 274,
        outcome: Outcome::Answered,
        sent: json_text(vec![("model", "jev-latest")]),
        received: Json::Object(vec![("noul".to_owned(), noul.clone())]),
    });

    assert_eq!(row.model_used, "jev-1.13.0");
    assert_eq!(row.questions, 3);
    assert_eq!(row.tokens_in, 312);
    assert_eq!(row.tokens_out, 48);
    assert_eq!(row.latency_ms, 274);
    assert_eq!(row.outcome, Outcome::Answered);
    assert_eq!(payload.sent.str_at("model"), Some("jev-latest"));
    assert_eq!(payload.received.get("noul"), Some(&noul));
}

#[test]
fn every_audit_table_comes_up_partitioned_by_the_month_it_was_written_in() {
    for parent in parents() {
        assert!(
            parent.statement().contains("PARTITION BY RANGE (created_at)"),
            "{} must be the partitioned parent, not a plain table",
            parent.table()
        );
    }
}

#[test]
fn maintenance_opens_the_months_ahead_and_drops_only_the_payload_months_past_retention() {
    let now = at(2026, 9);
    let there = |parent: Parent| {
        let mut names = vec![partition_name(parent.table(), at(2024, 3))];
        names.extend(months_to_open(now, MONTHS_OPEN_AHEAD).iter().map(|month| partition_name(parent.table(), *month)));
        names
    };
    let swept = |parent: Parent| past_retention(parent.table(), &there(parent), now, PAYLOAD_RETENTION_MONTHS);

    assert_eq!(swept(Parent::RequestPayloads), ["request_payloads_y2024m03"]);
    assert_eq!(swept(Parent::DecisionPayloads), ["decision_payloads_y2024m03"]);
    let next = add_months(now, MONTHS_OPEN_AHEAD);
    for parent in parents() {
        assert!(
            there(parent).contains(&partition_name(parent.table(), next)),
            "{} must have next month open before the month turns",
            parent.table()
        );
    }
}
