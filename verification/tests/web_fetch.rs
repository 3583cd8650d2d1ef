//! What may be fetched, and what a fetched page comes to.

use llm_tools::json::Json;
use llm_tools::tool::race::{Fault, Race};
use llm_tools::tool::tools::web_fetch::{
    check_status, ensure_public_url, is_private_ip, oversized_page, readable, readable_page_json, readable_send_failure,
    redirect_target, resolve, richest, url_host, Body, Chain, Extracted, Found, Ip, SendFault, MAX_FETCH_BYTES,
    ANSWERS_BEFORE_CHOOSING, MAX_REDIRECT_HOPS, MIN_READABLE_TEXT_CHARS,
};

fn v4(a: u8, b: u8, c: u8, d: u8) -> Found {
    Found::Literal(Ip::V4(a, b, c, d))
}

fn resolved(addresses: Vec<Ip>) -> Found {
    Found::Resolved(addresses)
}

#[test]
fn accepts_absolute_http_and_https_urls_on_public_hosts() {
    for url in ["https://93.184.216.34", "http://93.184.216.34:8080/docs/"] {
        assert_eq!(url_host(url).as_deref(), Ok("93.184.216.34"));
        assert!(ensure_public_url(url, &v4(93, 184, 216, 34)).is_ok(), "{url}");
    }
}

#[test]
fn rejects_hosts_inside_the_network_tool_runs_in() {
    let loopback = || vec![Ip::V4(127, 0, 0, 1)];
    for (url, found) in [
        ("http://localhost/", resolved(loopback())),
        ("http://app.localhost/", resolved(loopback())),
        ("http://127.0.0.1:8080/", v4(127, 0, 0, 1)),
        ("http://10.0.0.5/", v4(10, 0, 0, 5)),
        ("http://172.16.3.4/", v4(172, 16, 3, 4)),
        ("http://192.168.1.1/", v4(192, 168, 1, 1)),
        ("http://169.254.169.254/latest/meta-data/", v4(169, 254, 169, 254)),
        ("http://0.0.0.0/", v4(0, 0, 0, 0)),
        ("http://[::1]/", Found::Literal(Ip::V6(0, 0, 0, 0, 0, 0, 0, 1))),
        ("http://[fd00::1]/", Found::Literal(Ip::V6(0xfd00, 0, 0, 0, 0, 0, 0, 1))),
        ("http://[::ffff:127.0.0.1]/", Found::Literal(Ip::V6(0, 0, 0, 0, 0, 0xffff, 0x7f00, 1))),
    ] {
        assert!(ensure_public_url(url, &found).is_err(), "{url}");
    }
}

#[test]
fn rejects_a_hostname_that_dns_resolves_to_loopback() {
    assert!(ensure_public_url("http://localhost./", &resolved(vec![Ip::V4(127, 0, 0, 1)])).is_err());
}

#[test]
fn a_host_is_public_only_where_every_address_of_it_is() {
    let public = Ip::V4(93, 184, 216, 34);
    let private = Ip::V4(10, 0, 0, 5);
    let url = "https://example.com/";
    assert_eq!(ensure_public_url(url, &Found::Resolved(vec![public])), Ok(()));
    assert!(ensure_public_url(url, &Found::Resolved(vec![public, private])).is_err());
    assert!(ensure_public_url(url, &Found::Resolved(Vec::new())).is_err());
    let unresolved = ensure_public_url(url, &Found::Unresolved("no such host".to_owned())).unwrap_err();
    assert!(unresolved.contains("no such host"), "{unresolved}");
    assert!(is_private_ip(Ip::V6(0xfe80, 0, 0, 0, 0, 0, 0, 1)));
    assert!(!is_private_ip(Ip::V6(0x2606, 0x2800, 0x220, 1, 0, 0, 0, 1)));
}

#[test]
fn what_is_no_web_address_is_refused() {
    for url in ["ftp://example.com/", "example.com", "/relative", "http://", "not a url"] {
        assert!(url_host(url).is_err(), "{url}");
    }
    assert_eq!(url_host("https://[2606:2800::1]:8080/a"), Ok("2606:2800::1".to_owned()));
    assert_eq!(url_host("http://Example.com/"), Ok("Example.com".to_owned()));
}

#[test]
fn a_redirect_to_a_private_address_is_refused_at_the_hop() {
    let chain = Chain::start("http://203.0.113.5/");
    let next = "http://127.0.0.1:9/secrets";
    assert!(chain.follow(next.to_owned(), ensure_public_url(next, &v4(127, 0, 0, 1))).is_err());
}

#[test]
fn a_redirect_to_a_public_address_is_followed() {
    let chain = Chain::start("http://203.0.113.5/");
    let next = "http://93.184.216.34/";
    let chain = chain
        .follow(next.to_owned(), ensure_public_url(next, &v4(93, 184, 216, 34)))
        .expect("a public hop is fine");
    assert_eq!((chain.here.as_str(), chain.hops), (next, 1));
}

#[test]
fn a_redirect_loop_stops_at_the_hop_cap_rather_than_spinning() {
    let mut chain = Chain::start("http://203.0.113.5/");
    for _ in 0..MAX_REDIRECT_HOPS {
        chain = chain.follow("http://203.0.113.5/".to_owned(), Ok(())).unwrap();
    }
    let error =
        chain.follow("http://203.0.113.5/".to_owned(), Ok(())).expect_err("a loop must end");
    assert!(error.contains("redirect"), "{error}");
}

#[test]
fn a_relative_location_is_resolved_against_the_url_it_came_from() {
    assert_eq!(
        resolve("http://203.0.113.5/a/b?c", "/landing"),
        Ok("http://203.0.113.5/landing".to_owned())
    );
    assert_eq!(
        resolve("http://203.0.113.5/a/", "https://example.com"),
        Ok("https://example.com/".to_owned())
    );
    let error = resolve("not a url", "/landing").unwrap_err();
    assert!(error.starts_with("could not read not a url as a URL: "), "{error}");
    let error = resolve("http://203.0.113.5/", "http://[").unwrap_err();
    assert!(error.starts_with("could not resolve redirect target \"http://[\": "), "{error}");
    assert_eq!(redirect_target(302, Some("/x".to_owned())), Some("/x".to_owned()));
    assert_eq!(redirect_target(200, Some("/x".to_owned())), None);
    assert_eq!(redirect_target(302, None), None);
}

fn page(title: Option<&str>, text: &str) -> Extracted {
    Extracted { title: title.map(str::to_owned), main_text: text.to_owned() }
}

const ARTICLE: &str =
    "Borrowing lets code use a value without taking ownership of it, which the borrow checker enforces.";

#[test]
fn fetch_extracts_title_and_text() {
    let read = readable("http://203.0.113.5/page", page(Some("Hi"), ARTICLE)).expect("fetch");

    assert!(read.main_text.contains("Borrowing lets code use a value"));
    assert_eq!(
        readable_page_json(&read),
        Json::Object(vec![
            ("text".to_owned(), Json::Text(ARTICLE.to_owned())),
            ("title".to_owned(), Json::Text("Hi".to_owned())),
        ])
    );
    let Json::Object(untitled) = readable_page_json(&page(None, ARTICLE)) else {
        panic!("an object");
    };
    assert_eq!(untitled[1], ("title".to_owned(), Json::Null));
}

#[test]
fn web_fetch_an_endless_body_is_abandoned_once_it_passes_the_cap() {
    let mut body = Body::new(MAX_FETCH_BYTES);
    let chunk = vec![b'x'; 64 * 1024];
    let mut taken = 0;
    while body.take(&chunk) {
        taken += chunk.len();
        assert!(taken <= MAX_FETCH_BYTES);
    }
    assert_eq!(body.bytes().len(), taken);

    let error = oversized_page("http://203.0.113.5/endless");

    assert!(error.contains(&MAX_FETCH_BYTES.to_string()), "{error}");
}

fn pages(texts: &[&str]) -> Vec<(String, Extracted)> {
    texts.iter().map(|text| ("http://203.0.113.5/".to_owned(), page(None, text))).collect()
}

#[test]
fn the_page_carrying_the_most_text_wins_not_the_one_that_answers_first() {
    let won = richest(&pages(&[ARTICLE]), &vec!["http://127.0.0.1:1/nothing: refused".to_owned()])
        .expect("one url answered");
    assert!(won.main_text.contains("Borrowing lets code use a value"));
}

#[test]
fn a_thin_page_that_answers_first_loses_to_a_fuller_one() {
    let won = richest(
        &pages(&["This page says almost nothing at all about it.", ARTICLE]),
        &Vec::new(),
    )
    .expect("both answered");
    assert!(won.main_text.contains("Borrowing lets code use a value"));
}

#[test]
fn every_url_is_named_when_none_answer() {
    let error = richest(
        &Vec::new(),
        &vec![
            "http://127.0.0.1:1/a: connection refused".to_owned(),
            "http://127.0.0.1:2/b: connection refused".to_owned(),
        ],
    )
    .expect_err("both urls are dead");

    assert!(error.contains("127.0.0.1:1/a"), "{error}");
    assert!(error.contains("127.0.0.1:2/b"), "{error}");
}

#[test]
fn a_page_that_extracts_no_usable_text_fails_and_names_the_url() {
    let url = "http://203.0.113.5/page";

    let error = readable(url, page(Some("Conditions and Forecast"), ""))
        .expect_err("a page whose body is rendered by script carries no text");

    assert!(error.contains(url), "{error}");
    assert!(error.contains(&MIN_READABLE_TEXT_CHARS.to_string()), "{error}");
}

#[test]
fn a_non_success_status_is_an_error() {
    let error = check_status("http://203.0.113.5/missing", 404).unwrap_err();
    assert_eq!(error, "fetch http://203.0.113.5/missing returned 404 Not Found");
    assert_eq!(check_status("http://203.0.113.5/", 200), Ok(()));
}

#[test]
fn a_transport_failure_says_what_actually_went_wrong() {
    let url = "http://127.0.0.1:1/page";

    let error = readable_send_failure(url, &SendFault::Connect("Connection REFUSED (os error 111)".to_owned()));

    assert!(error.contains(url), "{error}");
    assert!(error.contains("connection refused (Connection REFUSED (os error 111))"), "{error}");
    assert!(!error.starts_with("error sending request"), "{error}");
    let error = readable_send_failure(url, &SendFault::Connect("DNS error".to_owned()));
    assert!(error.contains("host could not be resolved (DNS error)"), "{error}");
}

#[test]
fn a_timeout_is_reported_as_a_timeout() {
    let error = readable_send_failure("http://203.0.113.5/slow", &SendFault::TimedOut);
    assert!(error.contains("timed out"), "{error}");
}

fn raced(answers: Vec<(&str, Result<Extracted, &str>)>) -> Result<Extracted, String> {
    let names: Vec<String> = answers.iter().map(|(url, _)| (*url).to_owned()).collect();
    let fan_out = names.len();
    let mut race: Race<Extracted> = Race::new(names, fan_out, ANSWERS_BEFORE_CHOOSING, 30_000_000_000);
    for (op, (_, answer)) in answers.into_iter().enumerate() {
        if race.is_over() {
            break;
        }
        race.finished(op, answer.map_err(|reason| Fault::Said(reason.to_owned())));
    }
    let outcome = race.outcome();
    richest(&outcome.taken, &outcome.failures)
}

#[test]
fn a_third_url_does_not_hold_the_answer_back_once_two_have_replied() {
    let won = raced(vec![
        ("http://203.0.113.5/thin", Ok(page(None, "This page says almost nothing at all about it."))),
        ("http://203.0.113.5/full", Ok(page(None, ARTICLE))),
        ("http://203.0.113.5/never", Err("two answers are enough to decide")),
    ])
    .expect("both answered");
    assert!(won.main_text.contains("Borrowing lets code use a value"));
}

#[test]
fn fetch_richest_names_every_url_that_failed() {
    let error = raced(vec![
        ("http://127.0.0.1:1/a", Err("connection refused")),
        ("http://127.0.0.1:1/b", Err("connection refused")),
    ])
    .expect_err("both urls are unreachable");
    assert!(error.contains("http://127.0.0.1:1/a"), "{error}");
    assert!(error.contains("http://127.0.0.1:1/b"), "{error}");
}

#[test]
fn a_page_that_extracted_nothing_usable_is_passed_over() {
    let url = "http://203.0.113.5/empty";
    let reason = readable(url, page(None, "")).unwrap_err();
    let won = raced(vec![(url, Err(reason.as_str())), ("http://203.0.113.5/full", Ok(page(None, ARTICLE)))])
        .expect("one url carried real text");
    assert!(won.main_text.contains("Borrowing lets code use a value"));
}
