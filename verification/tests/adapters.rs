//! How the adapters read a provider's statuses and counts.

use llm_tools::json::{Json, Number};
use llm_tools::llm_router::adapters::{
    as_count, error_for_status, key_accepted, read_provider_response, unreachable_provider, ClientFaults, KeyCheck,
    ReplyBuffer, MAX_PROVIDER_RESPONSE_BYTES,
};
use llm_tools::llm_router::provider::CallError;

#[test]
fn a_rate_limit_or_a_server_fault_on_the_key_probe_lets_the_service_start() {
    for status in [408, 429, 500, 502, 503] {
        let checked = key_accepted(status);

        assert!(
            matches!(checked, Err(KeyCheck::Unreachable(_))),
            "{status} on the key probe is not an answer about the credential: {checked:?}"
        );
    }
}

#[test]
fn a_key_the_provider_refuses_stops_the_service_from_starting() {
    for status in [400, 401, 402, 403, 404] {
        assert_eq!(
            key_accepted(status),
            Err(KeyCheck::Rejected),
            "{status} on the key probe is a key or a base URL this deployment cannot use"
        );
    }
}

#[test]
fn mod_a_key_the_provider_accepts_lets_the_service_start() {
    key_accepted(200).unwrap();
}

#[test]
fn a_timeout_a_rate_limit_and_every_server_fault_are_worth_retrying() {
    for status in [408, 429, 500, 502, 529] {
        for faults in [ClientFaults::AlwaysFinal, ClientFaults::RefusedWhenBodyShaped] {
            assert!(
                matches!(error_for_status(status, None, faults), CallError::WorthRetrying(_)),
                "status {status} should be retried"
            );
        }
    }
}

#[test]
fn only_a_body_shaped_fault_is_ever_the_callers_to_fix() {
    for status in [400, 409, 413, 422] {
        assert!(
            matches!(
                error_for_status(status, None, ClientFaults::RefusedWhenBodyShaped),
                CallError::Refused(_)
            ),
            "status {status} is the caller's own request coming back"
        );
        assert!(
            matches!(error_for_status(status, None, ClientFaults::AlwaysFinal), CallError::Final(_)),
            "status {status} carries nothing of the caller's on the completion path"
        );
    }
}

#[test]
fn a_key_a_balance_or_a_base_url_is_never_reported_as_the_callers_request() {
    for status in [401, 402, 403, 404, 405, 451] {
        for faults in [ClientFaults::AlwaysFinal, ClientFaults::RefusedWhenBodyShaped] {
            assert!(
                matches!(error_for_status(status, None, faults), CallError::Final(_)),
                "status {status} is this deployment's own mistake, not the caller's"
            );
        }
    }
}

#[test]
fn a_count_the_provider_did_not_give_is_recorded_as_zero() {
    assert_eq!(as_count(Some(&Json::Number(Number::PosInt(312)))), 312);
    assert_eq!(as_count(Some(&Json::Null)), 0);
    assert_eq!(as_count(Some(&Json::Text("312".to_owned()))), 0);
    assert_eq!(as_count(Some(&Json::Number(Number::PosInt(i32::MAX as u64 + 1)))), 0);
    assert_eq!(as_count(None), 0);
}

#[test]
fn a_status_is_told_with_its_detail() {
    assert_eq!(
        error_for_status(422, Some("too short".to_owned()), ClientFaults::RefusedWhenBodyShaped),
        CallError::Refused("the provider answered 422: too short".to_owned())
    );
    assert_eq!(
        error_for_status(503, None, ClientFaults::AlwaysFinal),
        CallError::WorthRetrying("the provider answered 503".to_owned())
    );
}

#[test]
fn a_provider_that_gave_no_answer_is_worth_asking_again() {
    assert_eq!(
        unreachable_provider(true, "operation timed out"),
        CallError::WorthRetrying("the provider did not answer in time".to_owned())
    );
    assert_eq!(
        unreachable_provider(false, "connection refused"),
        CallError::WorthRetrying("could not reach the provider: connection refused".to_owned())
    );
}

#[test]
fn a_reply_is_read_from_its_chunks() {
    let chunks = vec![b"{\"model\":".to_vec(), b"\"jev\"}".to_vec()];
    let read = read_provider_response(None, &chunks).unwrap();
    assert_eq!(read, Json::Object(vec![("model".to_owned(), Json::Text("jev".to_owned()))]));

    let unreadable = read_provider_response(None, &vec![b"{".to_vec()]).unwrap_err();
    assert!(matches!(unreadable, CallError::WorthRetrying(_)), "{unreadable:?}");
}

#[test]
fn a_reply_that_declares_too_much_or_turns_out_too_long_is_not_read() {
    let declared = ReplyBuffer::new(Some(MAX_PROVIDER_RESPONSE_BYTES as u64 + 1)).unwrap_err();
    let CallError::WorthRetrying(message) = declared else {
        panic!("an oversized reply should allow the backup to answer");
    };
    assert!(message.contains(&MAX_PROVIDER_RESPONSE_BYTES.to_string()), "{message}");

    let mut reply = ReplyBuffer::new(None).unwrap();
    let half = vec![b'1'; MAX_PROVIDER_RESPONSE_BYTES / 2];
    reply.take(&half).unwrap();
    reply.take(&half).unwrap();
    assert!(matches!(reply.take(&half), Err(CallError::WorthRetrying(_))));
}

#[test]
fn any_client_fault_on_the_key_stops_the_service_from_starting() {
    for status in [401, 403, 404] {
        assert_eq!(
            key_accepted(status),
            Err(KeyCheck::Rejected),
            "{status} on the key path is a key or a base URL this deployment cannot use"
        );
    }
}

#[test]
fn any_credential_fault_on_the_key_stops_the_service_from_starting() {
    for status in [401, 403, 404] {
        assert_eq!(key_accepted(status), Err(KeyCheck::Rejected), "{status} on the key probe is a rejection");
    }
}

#[test]
fn openai_compatible_a_key_the_provider_accepts_lets_the_service_start() {
    for status in [200, 204, 299] {
        key_accepted(status).unwrap();
    }
}

#[test]
fn a_rate_limit_on_the_key_probe_does_not_stop_the_service_from_starting() {
    assert!(
        matches!(key_accepted(429), Err(KeyCheck::Unreachable(_))),
        "a rate limiter must not crash-loop the container"
    );
}

#[test]
fn a_rate_limited_key_probe_does_not_stop_the_service_from_starting() {
    assert!(
        matches!(key_accepted(429), Err(KeyCheck::Unreachable(_))),
        "a rate limiter must not crash-loop the container"
    );
}

#[test]
fn openai_compatible_a_provider_that_does_not_answer_in_time_is_worth_retrying() {
    let CallError::WorthRetrying(message) = unreachable_provider(true, "operation timed out") else {
        panic!("a slow provider is exactly what the backup exists for");
    };
    assert!(message.contains("in time"), "{message}");
}

#[test]
fn mod_a_provider_that_does_not_answer_in_time_is_worth_retrying() {
    let CallError::WorthRetrying(message) = unreachable_provider(true, "operation timed out") else {
        panic!("a slow provider is a transient fault");
    };
    assert!(message.contains("in time"), "{message}");
}

#[test]
fn a_provider_response_over_the_byte_limit_is_rejected_before_json_parsing() {
    let padding = format!("{{\"padding\":\"{}\"}}", "x".repeat(MAX_PROVIDER_RESPONSE_BYTES)).into_bytes();
    for declared in [None, Some(padding.len() as u64)] {
        let error = read_provider_response(declared, &vec![padding.clone()]).unwrap_err();

        let CallError::WorthRetrying(message) = error else {
            panic!("an oversized provider response should allow the backup to answer");
        };
        assert!(message.contains(&MAX_PROVIDER_RESPONSE_BYTES.to_string()), "{message}");
    }
}
