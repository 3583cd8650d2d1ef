//! What the single tools ask and what they make of the replies.

use llm_tools::json::Json;
use llm_tools::tool::providers::{
    results_json, AnySearchProvider, ProviderHit, SearchResult,
};
use llm_tools::tool::race::{Fault, Race};
use llm_tools::tool::tools::first_success::{FirstSuccess, Next, PER_SOURCE_TIMEOUT};
use llm_tools::tool::tools::fx::{
    codes, er_api_url, frankfurter_url, from_er_api, from_frankfurter, ErApiResponse, LatestResponse,
};
use llm_tools::tool::tools::kb_client::{document_json, kb_results_json, KbSearchResultJson};
use llm_tools::tool::tools::stocks::{
    change_base, from_stooq, from_yahoo, parse_stooq_csv, stooq_symbol, stooq_url, symbol_asked, yahoo_url, ChartMeta,
};
use llm_tools::tool::tools::upstream::{accepted, shaped};
use llm_tools::tool::tools::weather::{
    forecast_url, from_open_meteo, from_wttr, geocode_url, location_asked, place_found, utf8_percent_path,
    weather_code_description, wttr_url, ForecastCurrent, Place, WttrCurrent, WttrResponse,
};
use llm_tools::tool::tools::web_search::{
    attach_prefetched_text, candidates, PREFETCH_CANDIDATES, PREFETCH_TAKE, PREFETCH_TIMEOUT,
};

fn bits(n: f64) -> u64 {
    n.to_bits()
}

// Racing.

const QUICK: u64 = 5_000_000_000;

fn names(names: &[&str]) -> Vec<String> {
    names.iter().map(|name| (*name).to_owned()).collect()
}

fn said(reason: &str) -> Fault {
    Fault::Said(reason.to_owned())
}

#[test]
fn takes_the_quorum_and_stops_without_waiting_for_the_rest() {
    let mut race: Race<&str> = Race::new(names(&["a", "b", "c"]), 3, 2, QUICK);
    race.finished(0, Ok("a"));
    race.finished(1, Ok("b"));
    assert!(race.is_over(), "the quorum was reached, so the race must not wait for c");
    let taken: Vec<String> = race.outcome().taken.into_iter().map(|(name, _)| name).collect();
    assert_eq!(taken, ["a", "b"]);
}

#[test]
fn the_losers_are_cancelled_rather_than_awaited() {
    let mut race: Race<&str> = Race::new(names(&["fast", "slow"]), 2, 1, QUICK);
    race.finished(0, Ok("fast"));
    assert!(race.is_over(), "the race must return on the first success");
    let outcome = race.outcome();
    assert_eq!(outcome.taken.len(), 1);
    assert!(outcome.failures.is_empty(), "the slow operation has no verdict");
}

#[test]
fn a_failure_starts_the_next_reserve() {
    let mut race: Race<&str> =
        Race::new(names(&["one", "two", "three", "four", "five"]), 3, 1, QUICK);
    assert_eq!(*race.running(), [0, 1, 2]);
    assert_eq!(race.finished(0, Err(said("refused"))), Some(3));
    assert_eq!(race.finished(1, Err(said("refused"))), Some(4));
    assert_eq!(race.finished(2, Err(said("refused"))), None);
    race.finished(3, Ok("four"));
    let outcome = race.outcome();
    assert_eq!(outcome.taken.len(), 1, "the reserve never started");
    assert_eq!(outcome.failures.len(), 3);
}

#[test]
fn every_failure_is_named() {
    let mut race: Race<&str> = Race::new(names(&["one", "two"]), 2, 1, QUICK);
    race.finished(1, Err(said("refused")));
    race.finished(0, Err(said("refused")));
    let outcome = race.outcome();
    assert!(outcome.taken.is_empty());
    assert_eq!(outcome.failures, ["two: refused", "one: refused"]);
}

#[test]
fn an_operation_past_its_timeout_fails_instead_of_hanging_the_race() {
    let mut race: Race<&str> = Race::new(names(&["slow", "quick"]), 2, 2, 50_000_000);
    race.finished(1, Ok("quick"));
    race.finished(0, Err(Fault::TimedOut));
    let outcome = race.outcome();
    assert_eq!(outcome.taken.len(), 1);
    assert_eq!(outcome.failures, ["slow: timed out after 50ms"]);
}

#[test]
fn no_operations_is_a_named_failure_not_a_panic() {
    let race: Race<&str> = Race::new(Vec::new(), 3, 1, QUICK);
    assert!(race.is_over());
    let outcome = race.outcome();
    assert!(outcome.taken.is_empty());
    assert_eq!(outcome.failures, ["no operations to race"]);
}

#[test]
fn the_first_success_wins_and_the_slow_source_is_cancelled() {
    let race = FirstSuccess::start(names(&["slow", "fast"])).unwrap();
    assert_eq!(*race.running(), [0, 1]);
    let Next::Won(winner) = race.finished(1, Ok("fast")) else {
        panic!("a source succeeded");
    };
    assert_eq!(winner, "fast");
}

#[test]
fn a_failing_source_does_not_stop_a_later_succeeding_one() {
    let race = FirstSuccess::start(names(&["broken", "working"])).unwrap();
    let Next::Wait(race) = race.finished::<&str>(0, Err(said("503"))) else {
        panic!("the other source still runs");
    };
    assert!(matches!(race.finished(1, Ok("value")), Next::Won("value")));
}

#[test]
fn all_sources_failing_retries_the_whole_race_once_then_reports_every_source() {
    let race = FirstSuccess::start(names(&["alpha", "beta"])).unwrap();
    let Next::Wait(race) = race.finished::<()>(0, Err(said("connection refused"))) else {
        panic!("beta still runs");
    };
    let Next::Retry(race) = race.finished::<()>(1, Err(said("bad json"))) else {
        panic!("the whole race is run once more");
    };
    assert_eq!(*race.running(), [0, 1], "two sources, raced twice");
    let Next::Wait(race) = race.finished::<()>(1, Err(said("bad json"))) else {
        panic!("alpha still runs");
    };
    let Next::Failed(error) = race.finished::<()>(0, Err(said("connection refused"))) else {
        panic!("it gives up now");
    };
    assert_eq!(error, "all sources failed: beta: bad json; alpha: connection refused");
}

#[test]
fn a_source_that_succeeds_only_on_the_retry_still_wins() {
    let race = FirstSuccess::start(names(&["flaky"])).unwrap();
    let Next::Retry(race) = race.finished::<&str>(0, Err(said("transient"))) else {
        panic!("it is tried once more");
    };
    assert!(matches!(race.finished(0, Ok("second time lucky")), Next::Won("second time lucky")));
}

#[test]
fn a_source_slower_than_the_per_source_timeout_is_reported_as_a_timeout() {
    let race = FirstSuccess::start(names(&["stuck"])).unwrap();
    let Next::Retry(race) = race.finished::<&str>(0, Err(Fault::TimedOut)) else {
        panic!("it is tried once more");
    };
    let Next::Failed(error) = race.finished::<&str>(0, Err(Fault::TimedOut)) else {
        panic!("it gives up now");
    };
    assert_eq!(PER_SOURCE_TIMEOUT, 6);
    assert_eq!(error, "all sources failed: stuck: timed out after 6s");
}

#[test]
fn a_race_of_no_sources_says_so() {
    assert_eq!(FirstSuccess::start(Vec::new()).unwrap_err(), "no sources configured");
}

// Replies of public services.

#[test]
fn a_reply_is_read_only_where_it_succeeded() {
    assert_eq!(accepted(200), Ok(()));
    assert_eq!(accepted(429), Err("returned 429 Too Many Requests".to_owned()));
    assert_eq!(shaped(Ok(3)), Ok(3));
    assert_eq!(
        shaped::<u8>(Err("expected value".to_owned())),
        Err("unexpected response shape: expected value".to_owned())
    );
}

// Exchange rates.

fn rates(quoted: &[(&str, f64)]) -> Option<Vec<(String, u64)>> {
    Some(quoted.iter().map(|(code, rate)| ((*code).to_owned(), bits(*rate))).collect())
}

#[test]
fn frankfurter_rates_are_mapped_and_the_amount_converted() {
    let (base, quote) = codes("usd", "eur").unwrap();
    assert_eq!(
        frankfurter_url(&base, &quote),
        "https://api.frankfurter.app/latest?from=USD&to=EUR"
    );
    let body = LatestResponse { date: Some("2026-09-15".to_owned()), rates: rates(&[("EUR", 0.9)]) };

    let fx = from_frankfurter(body, &base, &quote, "2026-09-16").expect("rate");

    assert_eq!((fx.base, fx.quote), ("USD".to_owned(), "EUR".to_owned()));
    assert_eq!(fx.rate, bits(0.9));
    assert_eq!(fx.date, "2026-09-15");
    assert_eq!(fx.source, "frankfurter");
}

#[test]
fn er_api_wins_when_frankfurter_is_down() {
    assert_eq!(er_api_url("USD"), "https://open.er-api.com/v6/latest/USD");
    let body = ErApiResponse {
        result: Some("success".to_owned()),
        time_last_update_utc: None,
        rates: rates(&[("EUR", 0.91), ("GBP", 0.78)]),
    };

    let fx = from_er_api(body, "USD", "EUR", "2026-09-16").expect("rate");

    assert_eq!(fx.rate, bits(0.91));
    assert_eq!(fx.source, "open.er-api.com");
    assert_eq!(fx.date, "2026-09-16", "a reply without a date is of today");
}

#[test]
fn a_provider_that_does_not_quote_the_currency_is_an_error_not_a_zero() {
    let body = LatestResponse { date: Some("2026-09-15".to_owned()), rates: rates(&[("GBP", 0.78)]) };

    let error = from_frankfurter(body, "USD", "EUR", "2026-09-16").unwrap_err();

    assert!(error.contains("did not quote EUR"), "{error}");
}

#[test]
fn a_result_that_is_no_success_is_a_failure() {
    let body = ErApiResponse {
        result: Some("error".to_owned()),
        time_last_update_utc: None,
        rates: rates(&[("EUR", 0.91)]),
    };
    assert_eq!(
        from_er_api(body, "USD", "EUR", "2026-09-16").unwrap_err(),
        "returned result=\"error\""
    );
}

#[test]
fn a_nonsense_currency_code_is_rejected_before_any_request() {
    let error = codes("dollars", "EUR").unwrap_err();
    assert_eq!(error, "\"dollars\" is not a three-letter currency code like USD or EUR");
    assert!(codes("USD", "€").is_err());
    assert_eq!(codes(" usd\n", "gBp"), Ok(("USD".to_owned(), "GBP".to_owned())));
}

// Stocks.

#[test]
fn index_and_ticker_symbols_are_translated_to_stooq_spelling() {
    assert_eq!(stooq_symbol("^IXIC"), "^ndq");
    assert_eq!(stooq_symbol("^GSPC"), "^spx");
    assert_eq!(stooq_symbol("^DJI"), "^dji");
    assert_eq!(stooq_symbol("AAPL"), "aapl.us");
    assert_eq!(stooq_symbol("EURUSD=X"), "eurusd=x");
    assert_eq!(stooq_symbol("CDR.PL"), "cdr.pl");
}

#[test]
fn the_stooq_csv_row_becomes_a_quote() {
    let symbol = symbol_asked("^IXIC").unwrap();
    assert_eq!(stooq_url(&symbol), "https://stooq.com/q/l/?s=^ndq&f=sd2t2ohlcv&h&e=csv");
    let csv = "Symbol,Date,Time,Open,High,Low,Close,Volume\n^NDQ,2026-09-15,22:00:04,25990.1,26150.0,25960.2,26108.46,0\n";

    let quote = from_stooq(&symbol, csv).expect("quote");

    assert_eq!(quote.symbol, "^IXIC");
    assert_eq!(quote.price, bits(26108.46));
    assert_eq!(quote.as_of, "2026-09-15 22:00:04");
    assert_eq!(quote.source, "stooq");
    assert_eq!((quote.previous_close, change_base(&quote)), (None, None));
}

fn meta() -> ChartMeta {
    ChartMeta {
        symbol: Some("AAPL".to_owned()),
        short_name: Some("Apple Inc.".to_owned()),
        long_name: None,
        currency: Some("USD".to_owned()),
        regular_market_price: Some(bits(220.0)),
        previous_close: Some(bits(200.0)),
        chart_previous_close: None,
        regular_market_time: Some(1_789_000_000),
    }
}

#[test]
fn a_stooq_row_with_no_price_falls_through_to_yahoo() {
    let csv = "Symbol,Date,Time,Open,High,Low,Close,Volume\nAAPL.US,N/D,N/D,N/D,N/D,N/D,N/D,N/D\n";
    assert_eq!(
        from_stooq("AAPL", csv).unwrap_err(),
        "no usable Close in \"AAPL.US,N/D,N/D,N/D,N/D,N/D,N/D,N/D\""
    );
    assert_eq!(
        yahoo_url("AAPL"),
        "https://query1.finance.yahoo.com/v8/finance/chart/AAPL?range=1d&interval=1d"
    );

    let quote = from_yahoo("AAPL", Some(meta()), "now").expect("quote");

    assert_eq!(quote.source, "yahoo");
    assert_eq!(quote.name.as_deref(), Some("Apple Inc."));
    assert_eq!(quote.previous_close, Some(bits(200.0)));
    assert_eq!(change_base(&quote), Some(bits(200.0)));
    assert_eq!(quote.currency.as_deref(), Some("USD"));
    assert!(quote.as_of.starts_with("2026-"), "{}", quote.as_of);
    assert_eq!(quote.as_of, "2026-09-10T00:26:40+00:00");
}

#[test]
fn a_chart_that_leaves_things_out_is_filled_from_what_there_is() {
    let bare = ChartMeta {
        symbol: None,
        short_name: None,
        long_name: Some("Apple Incorporated".to_owned()),
        previous_close: None,
        chart_previous_close: Some(bits(-0.0)),
        regular_market_time: None,
        ..meta()
    };
    let quote = from_yahoo("AAPL", Some(bare), "now").unwrap();
    assert_eq!(quote.symbol, "AAPL");
    assert_eq!(quote.name.as_deref(), Some("Apple Incorporated"));
    assert_eq!(quote.as_of, "now");
    assert_eq!(change_base(&quote), None, "there is no change to measure against zero");

    let out_of_range = ChartMeta { regular_market_time: Some(i64::MAX), ..meta() };
    assert_eq!(from_yahoo("AAPL", Some(out_of_range), "now").unwrap().as_of, i64::MAX.to_string());

    assert_eq!(from_yahoo("AAPL", None, "now").unwrap_err(), "no chart data for AAPL");
    let unpriced = ChartMeta { regular_market_price: None, ..meta() };
    assert_eq!(
        from_yahoo("AAPL", Some(unpriced), "now").unwrap_err(),
        "no regularMarketPrice for AAPL"
    );
}

#[test]
fn a_table_is_read_by_its_header() {
    assert_eq!(parse_stooq_csv(" \n\r\n").unwrap_err(), "empty CSV");
    assert_eq!(parse_stooq_csv("Close\n\n").unwrap_err(), "CSV had no data row");
    let row = parse_stooq_csv("\r\n cLOSE , Date\r\n 12.5 , 2026-09-15 ").unwrap();
    assert_eq!((row.close, row.as_of.as_str()), (bits(12.5), "2026-09-15"));
    let priced = parse_stooq_csv("Close\nNaN").unwrap();
    assert!(f64::from_bits(priced.close).is_nan());
    assert_eq!(priced.as_of, "");
    assert!(parse_stooq_csv("Date,Close\n2026-09-15\n").is_err(), "the row is shorter than its header");
}

#[test]
fn an_empty_symbol_is_rejected_before_any_request() {
    assert_eq!(symbol_asked(" ").unwrap_err(), "symbol is required");
    assert_eq!(symbol_asked(" aapl ").unwrap(), "AAPL");
}

// Weather.

fn wttr_body() -> WttrResponse {
    WttrResponse {
        current_condition: vec![WttrCurrent {
            temp_c: "17".to_owned(),
            temp_f: "63".to_owned(),
            weather_desc: vec!["Partly cloudy ".to_owned()],
            humidity: Some("72".to_owned()),
            windspeed_kmph: Some("14".to_owned()),
            local_obs_date_time: Some("2026-09-16 10:30 AM".to_owned()),
            observation_time: None,
        }],
        nearest_area: vec![vec!["San Francisco".to_owned()]],
    }
}

#[test]
fn wttr_json_is_mapped_onto_the_tool_output() {
    assert_eq!(wttr_url("San Francisco"), "https://wttr.in/San%20Francisco?format=j1");

    let weather = from_wttr("San Francisco", wttr_body(), "now").expect("weather");

    assert_eq!(weather.location, "San Francisco");
    assert_eq!(weather.temp_c, bits(17.0));
    assert_eq!(weather.temp_f, Some(bits(63.0)));
    assert_eq!(weather.conditions, "Partly cloudy");
    assert_eq!(weather.humidity, Some(bits(72.0)));
    assert_eq!(weather.wind_kmh, Some(bits(14.0)));
    assert_eq!(weather.source, "wttr.in");
    assert_eq!(weather.observed_at, "2026-09-16 10:30 AM");
}

#[test]
fn weather_that_leaves_things_out_is_filled_from_what_there_is() {
    let mut bare = wttr_body();
    bare.current_condition[0].temp_f = String::new();
    bare.current_condition[0].weather_desc.clear();
    bare.current_condition[0].humidity = Some("humid".to_owned());
    bare.current_condition[0].local_obs_date_time = None;
    bare.nearest_area.clear();
    let weather = from_wttr("Nowhere", bare, "now").unwrap();
    assert_eq!(weather.location, "Nowhere");
    assert_eq!((weather.temp_f, weather.humidity), (None, None));
    assert_eq!((weather.conditions.as_str(), weather.observed_at.as_str()), ("unknown", "now"));

    let empty = WttrResponse { current_condition: Vec::new(), nearest_area: Vec::new() };
    assert_eq!(
        from_wttr("Nowhere", empty, "now").unwrap_err(),
        "wttr.in returned no current_condition"
    );
    let mut cold = wttr_body();
    cold.current_condition[0].temp_c = "cold".to_owned();
    assert_eq!(from_wttr("Nowhere", cold, "now").unwrap_err(), "wttr.in returned no temp_C");
}

#[test]
fn open_meteo_geocodes_then_reads_the_current_block() {
    assert_eq!(
        geocode_url("Berlin & more").unwrap(),
        "https://geocoding-api.open-meteo.com/v1/search?name=Berlin+%26+more&count=1"
    );
    let berlin = Place {
        name: "Berlin".to_owned(),
        latitude: bits(52.52),
        longitude: bits(13.41),
    };
    let place = place_found("Berlin", vec![berlin]).unwrap();
    assert_eq!(
        forecast_url(&place).unwrap(),
        "https://api.open-meteo.com/v1/forecast?latitude=52.52&longitude=13.41&current=temperature_2m%2C\
         weather_code%2Cwind_speed_10m%2Crelative_humidity_2m"
    );

    let weather = from_open_meteo(
        place,
        Some(ForecastCurrent {
            time: Some("2026-09-16T10:30".to_owned()),
            temperature_2m: Some(bits(21.4)),
            weather_code: Some(61),
            wind_speed_10m: Some(bits(9.0)),
            relative_humidity_2m: Some(bits(55.0)),
        }),
        "now",
    )
    .expect("weather");

    assert_eq!(weather.location, "Berlin");
    assert_eq!(weather.temp_c, bits(21.4));
    assert_eq!(weather.temp_f, None, "it is the one in Celsius converted");
    assert_eq!(weather.conditions, "rain");
    assert_eq!((weather.humidity, weather.wind_kmh), (Some(bits(55.0)), Some(bits(9.0))));
    assert_eq!(weather.source, "open-meteo");
    assert_eq!(weather.observed_at, "2026-09-16T10:30");
}

#[test]
fn a_place_that_is_not_found_is_named() {
    assert_eq!(
        place_found("Nowhere", Vec::new()).unwrap_err(),
        "open-meteo could not geocode \"Nowhere\""
    );
    let nowhere = || Place { name: "N".to_owned(), latitude: 0, longitude: 0 };
    assert_eq!(
        from_open_meteo(nowhere(), None, "now").unwrap_err(),
        "open-meteo returned no current block"
    );
    let blank = ForecastCurrent {
        time: None,
        temperature_2m: None,
        weather_code: None,
        wind_speed_10m: None,
        relative_humidity_2m: None,
    };
    assert_eq!(
        from_open_meteo(nowhere(), Some(blank), "now").unwrap_err(),
        "open-meteo returned no temperature_2m"
    );
}

#[test]
fn an_empty_location_is_rejected_before_any_request() {
    assert_eq!(location_asked("  ").unwrap_err(), "location is required");
    assert_eq!(location_asked(" Berlin ").unwrap(), "Berlin");
}

#[test]
fn a_place_is_one_path_segment_whatever_it_is_called() {
    assert_eq!(utf8_percent_path("São Paulo/?#"), "S%C3%A3o%20Paulo%2F%3F%23");
    assert_eq!(utf8_percent_path("a-b_c.d~e,9"), "a-b_c.d~e,9");
}

#[test]
fn unknown_weather_codes_degrade_to_a_word_rather_than_a_number() {
    assert_eq!(weather_code_description(Some(0)), "clear sky");
    assert_eq!(weather_code_description(Some(1234)), "unknown");
    assert_eq!(weather_code_description(None), "unknown");
    assert_eq!(weather_code_description(Some(81)), "rain showers");
}

// Web search.

fn provider_hit(n: &str) -> ProviderHit {
    ProviderHit {
        title: n.to_owned(),
        url: format!("https://example.com/{n}"),
        description: "d".to_owned(),
    }
}

#[test]
fn search_parses_you_results() {
    let provider = AnySearchProvider::from_api_keys("fake-key", "another");
    assert_eq!(provider, AnySearchProvider::You);
    let request = provider.request("rust async traits", 5).unwrap();
    assert_eq!(request.url, "https://ydc-index.io/v1/search?query=rust+async+traits&count=5");
    assert_eq!(request.key_header, "X-API-Key");

    let results = provider.search_results(
        Some(vec![ProviderHit {
            title: "Async traits".to_owned(),
            url: "https://example.com/a".to_owned(),
            description: "A guide.".to_owned(),
        }]),
        5,
    );

    assert_eq!(
        results,
        vec![SearchResult {
            title: "Async traits".to_owned(),
            url: "https://example.com/a".to_owned(),
            snippet: "A guide.".to_owned(),
            text: None,
        }]
    );
}

#[test]
fn search_parses_brave_results() {
    let provider = AnySearchProvider::from_api_keys("", "fake-key");
    assert_eq!(provider, AnySearchProvider::Brave);
    let request = provider.request("rust async traits", 5).unwrap();
    assert_eq!(
        request.url,
        "https://api.search.brave.com/res/v1/web/search?q=rust+async+traits&count=5"
    );
    assert_eq!(request.key_header, "X-Subscription-Token");

    let results = provider.search_results(
        Some(vec![ProviderHit {
            title: "Async traits".to_owned(),
            url: "https://example.com/a".to_owned(),
            description: "A guide.".to_owned(),
        }]),
        5,
    );

    assert_eq!(
        results,
        vec![SearchResult {
            title: "Async traits".to_owned(),
            url: "https://example.com/a".to_owned(),
            snippet: "A guide.".to_owned(),
            text: None,
        }]
    );
    assert!(provider.search_results(None, 5).is_empty());
}

#[test]
fn brave_keeps_every_hit_it_sent() {
    let hits = || Some(vec![provider_hit("One"), provider_hit("Two"), provider_hit("Three")]);

    let results = AnySearchProvider::Brave.search_results(hits(), 2);

    assert_eq!(results.iter().map(|hit| hit.title.as_str()).collect::<Vec<_>>(), ["One", "Two", "Three"]);
    assert!(AnySearchProvider::Unconfigured.search_results(hits(), 2).is_empty());
}

#[test]
fn search_truncates_to_limit() {
    let results = AnySearchProvider::You.search_results(
        Some(vec![provider_hit("One"), provider_hit("Two"), provider_hit("Three")]),
        2,
    );

    assert_eq!(results.len(), 2);
    assert_eq!((results[0].title.as_str(), results[1].title.as_str()), ("One", "Two"));
}

#[test]
fn a_search_without_a_provider_says_what_to_set() {
    let provider = AnySearchProvider::from_api_keys("", "");
    assert_eq!(
        provider.request("q", 5).unwrap_err(),
        "web search is not configured: set YOU_SEARCH_API_KEY or BRAVE_SEARCH_API_KEY"
    );
    assert_eq!(AnySearchProvider::You.check_status(204), None);
    assert_eq!(
        AnySearchProvider::You.check_status(500).as_deref(),
        Some("you.com search returned 500 Internal Server Error")
    );
    assert_eq!(
        AnySearchProvider::Brave.check_status(301).as_deref(),
        Some("brave search returned 301 Moved Permanently")
    );
}

fn hit(url: &str) -> SearchResult {
    SearchResult {
        title: "Title".to_owned(),
        url: url.to_owned(),
        snippet: "Snippet".to_owned(),
        text: None,
    }
}

fn text(text: &str) -> Json {
    Json::Text(text.to_owned())
}

#[test]
fn a_hit_whose_fetch_fails_renders_exactly_as_today() {
    let mut results = vec![hit("http://203.0.113.5/")];

    attach_prefetched_text(&mut results, &vec![true], &Vec::new());

    assert_eq!(results[0].text, None);
    assert_eq!(
        results_json(&results),
        Json::Array(vec![Json::Object(vec![
            ("snippet".to_owned(), text("Snippet")),
            ("title".to_owned(), text("Title")),
            ("url".to_owned(), text("http://203.0.113.5/")),
        ])]),
        "a fetch failure must not add a text key at all"
    );
}

#[test]
fn a_search_whose_every_prefetch_fails_returns_the_snippet_only_result() {
    let before = || vec![hit("http://127.0.0.1:1/page"), hit("http://127.0.0.1:2/page")];
    let mut results = before();
    assert!(candidates(&results, &vec![false, false]).is_empty());

    attach_prefetched_text(&mut results, &vec![false, false], &Vec::new());

    assert_eq!(results, before());
}

#[test]
fn a_prefetch_candidate_on_a_private_address_is_refused_before_any_request_goes_out() {
    let results = vec![hit("http://127.0.0.1:1/secret"), hit("https://example.com/")];
    assert_eq!(candidates(&results, &vec![false, true]), ["https://example.com/"]);
}

#[test]
fn attach_prefetched_text_only_considers_the_top_candidates() {
    let results: Vec<SearchResult> =
        (0..=PREFETCH_CANDIDATES).map(|index| hit(&format!("https://example.com/{index}"))).collect();
    let public = results.iter().map(|_| true).collect();

    let fetched = candidates(&results, &public);

    assert_eq!(fetched.len(), PREFETCH_CANDIDATES);
    assert!(!fetched.contains(&results[PREFETCH_CANDIDATES].url));
}

#[test]
fn a_fetched_text_goes_to_the_hits_of_its_url_and_changes_nothing_else() {
    let mut results = vec![hit("https://a.example/"), hit("https://b.example/"), hit("https://a.example/")];

    attach_prefetched_text(
        &mut results,
        &vec![true, true, true],
        &vec![
            ("https://a.example/".to_owned(), "first".to_owned()),
            ("https://a.example/".to_owned(), "second".to_owned()),
        ],
    );

    let with_text = || SearchResult { text: Some("second".to_owned()), ..hit("https://a.example/") };
    assert_eq!(results, vec![with_text(), hit("https://b.example/"), with_text()]);
    let Json::Array(rendered) = results_json(&results) else {
        panic!("a list");
    };
    assert_eq!(rendered[0].str_at("text"), Some("second"));
}

#[test]
fn a_hit_that_is_no_candidate_gains_nothing_even_where_its_url_was_fetched() {
    let url = "https://a.example/";
    let mut results: Vec<SearchResult> = (0..PREFETCH_CANDIDATES + 2).map(|_| hit(url)).collect();

    attach_prefetched_text(
        &mut results,
        &vec![true, false, true, true, true],
        &vec![(url.to_owned(), "text".to_owned())],
    );

    let gained: Vec<bool> = results.iter().map(|hit| hit.text.is_some()).collect();
    assert_eq!(gained, [true, false, true, true, false, false]);
}

// The knowledge base.

#[test]
fn search_sends_the_query_and_maps_results() {
    let results = vec![KbSearchResultJson {
        title: "The Borrow Checker".to_owned(),
        snippet: "Borrowing lets code use a value without taking ownership.".to_owned(),
        source: "academy.example.com".to_owned(),
        source_id: "/courses/borrow-checker".to_owned(),
    }];
    assert_eq!(
        kb_results_json(&results),
        Json::Array(vec![Json::Object(vec![
            ("snippet".to_owned(), text("Borrowing lets code use a value without taking ownership.")),
            ("source".to_owned(), text("academy.example.com")),
            ("source_id".to_owned(), text("/courses/borrow-checker")),
            ("title".to_owned(), text("The Borrow Checker")),
        ])])
    );
}

#[test]
fn read_document_returns_the_content() {
    assert_eq!(
        document_json("Full document text.".to_owned()),
        Json::Object(vec![("content".to_owned(), text("Full document text."))])
    );
}

// Whole lookups.

fn all_failing(sources: &[(&str, &str)]) -> String {
    let mut race = FirstSuccess::start(names(&sources.iter().map(|(name, _)| *name).collect::<Vec<_>>())).unwrap();
    loop {
        let source = race.running()[0];
        match race.finished::<()>(source, Err(said(sources[source].1))) {
            Next::Wait(next) | Next::Retry(next) => race = next,
            Next::Failed(error) => return error,
            Next::Won(()) => panic!("nothing succeeds"),
        }
    }
}

#[test]
fn both_sources_failing_names_both() {
    let unavailable = accepted(503).unwrap_err();
    let error = all_failing(&[("stooq", unavailable.as_str()), ("yahoo", unavailable.as_str())]);
    assert!(error.contains("stooq"), "{error}");
    assert!(error.contains("yahoo"), "{error}");
}

#[test]
fn every_source_failing_reports_both() {
    let unavailable = accepted(500).unwrap_err();
    let nowhere = place_found("Nowhere", Vec::new()).unwrap_err();
    let error = all_failing(&[("wttr.in", unavailable.as_str()), ("open-meteo", nowhere.as_str())]);
    assert!(error.contains("wttr.in"), "{error}");
    assert!(error.contains("open-meteo"), "{error}");
}

#[test]
fn source_a_failing_lets_source_b_win() {
    let paris = Place { name: "Paris".to_owned(), latitude: bits(48.85), longitude: bits(2.35) };
    let current = ForecastCurrent {
        time: None,
        temperature_2m: Some(bits(12.0)),
        weather_code: Some(3),
        wind_speed_10m: None,
        relative_humidity_2m: None,
    };
    let race = FirstSuccess::start(names(&["wttr.in", "open-meteo"])).unwrap();
    let Next::Wait(race) = race.finished::<()>(0, Err(Fault::Said(accepted(503).unwrap_err()))) else {
        panic!("open-meteo still runs");
    };
    let Next::Won(weather) = race.finished(1, from_open_meteo(paris, Some(current), "now").map_err(Fault::Said)) else {
        panic!("open-meteo answers");
    };
    assert_eq!(weather.source, "open-meteo");
    assert_eq!(weather.conditions, "overcast");
}

fn race_fetch(answers: Vec<(&str, Result<&str, &str>)>) -> Vec<(String, String)> {
    let urls: Vec<String> = answers.iter().map(|(url, _)| (*url).to_owned()).collect();
    let fan_out = urls.len();
    let mut race: Race<String> = Race::new(urls, fan_out, PREFETCH_TAKE, PREFETCH_TIMEOUT * 1_000_000_000);
    for (op, (_, answer)) in answers.into_iter().enumerate() {
        if race.is_over() {
            break;
        }
        race.finished(op, answer.map(str::to_owned).map_err(said));
    }
    race.outcome().taken
}

const ARTICLE: &str =
    "Borrowing lets code use a value without taking ownership of it, which the borrow checker enforces.";

#[test]
fn race_fetch_skips_a_url_whose_fetch_fails() {
    let fetched = race_fetch(vec![
        ("http://127.0.0.1:1/nothing", Err("connection refused")),
        ("http://127.0.0.1:2/page", Ok(ARTICLE)),
    ]);
    assert_eq!(fetched, [("http://127.0.0.1:2/page".to_owned(), ARTICLE.to_owned())]);
}

#[test]
fn race_fetch_attaches_the_text_of_two_successes() {
    let fetched = race_fetch(vec![("http://127.0.0.1:1/", Ok(ARTICLE)), ("http://127.0.0.1:2/", Ok(ARTICLE))]);
    assert_eq!(fetched.len(), 2);
    let mut results = vec![hit("http://127.0.0.1:1/"), hit("http://127.0.0.1:2/")];
    attach_prefetched_text(&mut results, &vec![true, true], &fetched);
    assert!(results.iter().all(|hit| hit.text.as_deref() == Some(ARTICLE)));
}

#[test]
fn race_fetch_stops_at_the_quorum_without_waiting_for_a_third() {
    let fetched = race_fetch(vec![
        ("http://127.0.0.1:1/", Ok(ARTICLE)),
        ("http://127.0.0.1:2/", Ok(ARTICLE)),
        ("http://127.0.0.1:1/never", Err("two successes are enough to stop")),
    ]);
    assert_eq!(fetched.len(), 2);
}
