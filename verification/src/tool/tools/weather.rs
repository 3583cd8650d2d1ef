//! The weather at a place now, from two public services asked at once. wttr.in takes a place by name in one request;
//! Open-Meteo has to be asked for the place first.

use vstd::prelude::*;

use crate::collect::outcome;
use crate::json::{double_text, show_double, Number};
use crate::number::{double_in, read_double};
use crate::text::{cat2, cat4, contains_of, is_blank, quote, quoted, trim, trimmed};
use crate::tool::tools::declarative::hex_digit;
use crate::tool::tools::upstream::{MAX_BASE_CHARS, or_text, text_or, url_with_query, with_query};

verus! {

pub const WTTR_BASE: &'static str = "https://wttr.in";

pub const GEOCODE_BASE: &'static str = "https://geocoding-api.open-meteo.com/v1/search";

pub const FORECAST_BASE: &'static str = "https://api.open-meteo.com/v1/forecast";

/// The weather at a place. Numbers are the bits of doubles. Where the service gave no temperature in Fahrenheit, it
/// is the one in Celsius converted.
#[derive(Debug, PartialEq, Eq)]
pub struct Weather {
    pub location: String,
    pub temp_c: u64,
    pub temp_f: Option<u64>,
    pub conditions: String,
    pub humidity: Option<u64>,
    pub wind_kmh: Option<u64>,
    pub source: String,
    pub observed_at: String,
}

#[verifier::ext_equal]
pub struct WeatherView {
    pub location: Seq<char>,
    pub temp_c: u64,
    pub temp_f: Option<u64>,
    pub conditions: Seq<char>,
    pub humidity: Option<u64>,
    pub wind_kmh: Option<u64>,
    pub source: Seq<char>,
    pub observed_at: Seq<char>,
}

impl DeepView for Weather {
    type V = WeatherView;

    open spec fn deep_view(&self) -> WeatherView {
        WeatherView {
            location: self.location@,
            temp_c: self.temp_c,
            temp_f: self.temp_f,
            conditions: self.conditions@,
            humidity: self.humidity,
            wind_kmh: self.wind_kmh,
            source: self.source@,
            observed_at: self.observed_at@,
        }
    }
}

/// The place a request asks about, without the white space around it.
pub fn location_asked(location: &str) -> (asked: Result<String, String>)
    ensures
        (match asked {
            Ok(asked) => asked@ == trimmed(location@) && asked@.len() > 0,
            Err(message) => trimmed(location@).len() == 0 && message@ == "location is required"@,
        }),
{
    if is_blank(location) {
        return Err("location is required".to_owned());
    }
    Ok(trim(location))
}

/// A byte that stands for itself in a path segment.
pub open spec fn is_plain(byte: u8) -> bool {
    ||| 0x30 <= byte <= 0x39
    ||| 0x41 <= byte <= 0x5a
    ||| 0x61 <= byte <= 0x7a
    ||| byte == 0x2d
    ||| byte == 0x5f
    ||| byte == 0x2e
    ||| byte == 0x7e
    ||| byte == 0x2c
}

/// A byte in a path segment: itself, or a percent sign and its two hexadecimal digits.
pub open spec fn path_byte(byte: u8) -> Seq<char> {
    if is_plain(byte) {
        seq![byte as char]
    } else {
        seq!['%', hex_digit(byte as int / 16), hex_digit(byte as int % 16)]
    }
}

pub open spec fn path_encoded(bytes: Seq<u8>) -> Seq<char>
    decreases bytes.len(),
{
    if bytes.len() == 0 {
        seq![]
    } else {
        path_encoded(bytes.drop_last()) + path_byte(bytes.last())
    }
}

fn hex(n: u8) -> (digit: char)
    requires
        n < 16,
    ensures
        digit == hex_digit(n as int),
{
    if n < 10 {
        (0x30 + n) as char
    } else {
        (0x37 + n) as char
    }
}

/// A place's name as one segment of a path.
pub fn utf8_percent_path(location: &str) -> (segment: String)
    ensures
        segment@ == path_encoded(vstd::utf8::encode_utf8(location@)),
{
    let bytes: &[u8] = location.as_bytes();
    let mut segment = String::new();
    for i in 0..bytes.len()
        invariant
            segment@ == path_encoded(bytes@.take(i as int)),
    {
        let byte: u8 = bytes[i];
        assert(bytes@.take(i as int + 1).drop_last() =~= bytes@.take(i as int));
        let ghost before = segment@;
        if (byte >= 0x30 && byte <= 0x39) || (byte >= 0x41 && byte <= 0x5a) || (byte >= 0x61 && byte
            <= 0x7a) || byte == 0x2d || byte == 0x5f || byte == 0x2e || byte == 0x7e || byte == 0x2c {
            segment.push(byte as char);
        } else {
            segment.push('%');
            segment.push(hex(byte / 16));
            segment.push(hex(byte % 16));
        }
        assert(segment@ =~= before + path_byte(byte));
    }
    assert(bytes@.take(bytes@.len() as int) =~= bytes@);
    segment
}

/// A character that ends no path segment and starts neither a query nor a fragment.
pub open spec fn stays_in_segment(c: char) -> bool {
    c != '/' && c != '?' && c != '#' && c != ' ' && (c as u32) < 0x80
}

/// Whatever a place is called, its name is one segment of the path: it cannot add a segment, a query or a fragment.
pub proof fn law_a_place_is_one_path_segment(bytes: Seq<u8>)
    ensures
        forall|i: int| 0 <= i < path_encoded(bytes).len() ==> stays_in_segment(#[trigger] path_encoded(bytes)[i]),
    decreases bytes.len(),
{
    if bytes.len() > 0 {
        law_a_place_is_one_path_segment(bytes.drop_last());
        let before = path_encoded(bytes.drop_last());
        let added = path_byte(bytes.last());
        assert forall|i: int| 0 <= i < added.len() implies stays_in_segment(#[trigger] added[i]) by {
            let byte = bytes.last();
            if is_plain(byte) {
                assert(byte as char as u32 == byte as u32);
            }
        }
        assert forall|i: int| 0 <= i < path_encoded(bytes).len() implies stays_in_segment(
            #[trigger] path_encoded(bytes)[i],
        ) by {
            if i < before.len() {
                assert(path_encoded(bytes)[i] == before[i]);
            } else {
                assert(path_encoded(bytes)[i] == added[i - before.len()]);
            }
        }
    }
}

pub fn wttr_url(location: &str) -> (url: String)
    ensures
        url@ == WTTR_BASE@ + "/"@ + path_encoded(vstd::utf8::encode_utf8(location@)) + "?format=j1"@,
{
    cat4(WTTR_BASE, "/", utf8_percent_path(location).as_str(), "?format=j1")
}

/// The number a text writes, with white space around it or not.
pub open spec fn number_in(text: Seq<char>) -> Option<u64> {
    double_in(trimmed(text))
}

pub fn parse_number(raw: &str) -> (bits: Option<u64>)
    ensures
        bits == number_in(raw@),
{
    read_double(trim(raw).as_str())
}

/// What wttr.in says of a place now.
#[derive(Debug)]
pub struct WttrCurrent {
    pub temp_c: String,
    pub temp_f: String,
    pub weather_desc: Vec<String>,
    pub humidity: Option<String>,
    pub windspeed_kmph: Option<String>,
    pub local_obs_date_time: Option<String>,
    pub observation_time: Option<String>,
}

pub struct WttrCurrentView {
    pub temp_c: Seq<char>,
    pub temp_f: Seq<char>,
    pub weather_desc: Seq<Seq<char>>,
    pub humidity: Option<Seq<char>>,
    pub windspeed_kmph: Option<Seq<char>>,
    pub local_obs_date_time: Option<Seq<char>>,
    pub observation_time: Option<Seq<char>>,
}

impl DeepView for WttrCurrent {
    type V = WttrCurrentView;

    open spec fn deep_view(&self) -> WttrCurrentView {
        WttrCurrentView {
            temp_c: self.temp_c@,
            temp_f: self.temp_f@,
            weather_desc: self.weather_desc.deep_view(),
            humidity: self.humidity.deep_view(),
            windspeed_kmph: self.windspeed_kmph.deep_view(),
            local_obs_date_time: self.local_obs_date_time.deep_view(),
            observation_time: self.observation_time.deep_view(),
        }
    }
}

/// What wttr.in replies: what holds now, and the names of each area near the place.
#[derive(Debug)]
pub struct WttrResponse {
    pub current_condition: Vec<WttrCurrent>,
    pub nearest_area: Vec<Vec<String>>,
}

pub open spec fn first_of<T>(items: Seq<T>) -> Option<T> {
    if items.len() == 0 {
        None
    } else {
        Some(items[0])
    }
}

/// The first name of the nearest area.
pub open spec fn area_name(areas: Seq<Seq<Seq<char>>>) -> Option<Seq<char>> {
    match first_of(areas) {
        Some(names) => first_of(names),
        None => None,
    }
}

pub open spec fn number_if(text: Option<Seq<char>>) -> Option<u64> {
    match text {
        Some(text) => number_in(text),
        None => None,
    }
}

pub open spec fn wttr_weather(
    location: Seq<char>,
    current: Seq<WttrCurrentView>,
    areas: Seq<Seq<Seq<char>>>,
    now: Seq<char>,
) -> Result<WeatherView, Seq<char>> {
    match first_of(current) {
        None => Err("wttr.in returned no current_condition"@),
        Some(current) => match number_in(current.temp_c) {
            None => Err("wttr.in returned no temp_C"@),
            Some(temp_c) => Ok(
                WeatherView {
                    location: or_text(area_name(areas), location),
                    temp_c,
                    temp_f: number_in(current.temp_f),
                    conditions: match first_of(current.weather_desc) {
                        Some(text) => trimmed(text),
                        None => "unknown"@,
                    },
                    humidity: number_if(current.humidity),
                    wind_kmh: number_if(current.windspeed_kmph),
                    source: "wttr.in"@,
                    observed_at: or_text(
                        current.local_obs_date_time,
                        or_text(current.observation_time, now),
                    ),
                },
            ),
        },
    }
}

fn parse_if(text: &Option<String>) -> (bits: Option<u64>)
    ensures
        bits == number_if(text.deep_view()),
{
    match text {
        Some(text) => parse_number(text.as_str()),
        None => None,
    }
}

/// wttr.in's reply as the weather.
pub fn from_wttr(location: &str, body: WttrResponse, now: &str) -> (weather: Result<Weather, String>)
    ensures
        outcome(weather) == wttr_weather(
            location@,
            body.current_condition.deep_view(),
            body.nearest_area.deep_view(),
            now@,
        ),
{
    if body.current_condition.len() == 0 {
        return Err("wttr.in returned no current_condition".to_owned());
    }
    let current: &WttrCurrent = &body.current_condition[0];
    assert(body.current_condition.deep_view()[0] == current.deep_view());
    match parse_number(current.temp_c.as_str()) {
        None => Err("wttr.in returned no temp_C".to_owned()),
        Some(temp_c) => {
            let location: String = if body.nearest_area.len() > 0 && body.nearest_area[0].len() > 0 {
                assert(body.nearest_area.deep_view()[0] == body.nearest_area@[0].deep_view());
                assert(body.nearest_area@[0].deep_view()[0] == body.nearest_area@[0]@[0]@);
                body.nearest_area[0][0].clone()
            } else {
                assert(body.nearest_area@.len() > 0 ==> body.nearest_area.deep_view()[0]
                    == body.nearest_area@[0].deep_view());
                location.to_owned()
            };
            let conditions: String = if current.weather_desc.len() > 0 {
                assert(current.weather_desc.deep_view()[0] == current.weather_desc@[0]@);
                trim(current.weather_desc[0].as_str())
            } else {
                "unknown".to_owned()
            };
            let observed_at: String = match &current.local_obs_date_time {
                Some(time) => time.clone(),
                None => match &current.observation_time {
                    Some(time) => time.clone(),
                    None => now.to_owned(),
                },
            };
            Ok(
                Weather {
                    location,
                    temp_c,
                    temp_f: parse_number(current.temp_f.as_str()),
                    conditions,
                    humidity: parse_if(&current.humidity),
                    wind_kmh: parse_if(&current.windspeed_kmph),
                    source: "wttr.in".to_owned(),
                    observed_at,
                },
            )
        },
    }
}

proof fn lemma_bases_take_a_query()
    ensures
        GEOCODE_BASE@.len() <= MAX_BASE_CHARS,
        FORECAST_BASE@.len() <= MAX_BASE_CHARS,
        !contains_of(GEOCODE_BASE@, '#'),
        !contains_of(FORECAST_BASE@, '#'),
{
    reveal_strlit("https://geocoding-api.open-meteo.com/v1/search");
    reveal_strlit("https://api.open-meteo.com/v1/forecast");
}

pub open spec fn geocode_pairs(location: Seq<char>) -> Seq<(Seq<char>, Seq<char>)> {
    seq![("name"@, location), ("count"@, "1"@)]
}

/// Where to ask Open-Meteo for a place.
pub fn geocode_url(location: &str) -> (url: Result<String, String>)
    ensures
        outcome(url) == url_with_query(GEOCODE_BASE@, geocode_pairs(location@)),
{
    proof {
        lemma_bases_take_a_query();
    }
    let pairs: Vec<(String, String)> = vec![
        ("name".to_owned(), location.to_owned()),
        ("count".to_owned(), "1".to_owned()),
    ];
    assert(pairs.deep_view() =~= geocode_pairs(location@));
    with_query(GEOCODE_BASE, &pairs)
}

/// A place as Open-Meteo knows it. Its coordinates are the bits of doubles.
#[derive(Debug, PartialEq, Eq)]
pub struct Place {
    pub name: String,
    pub latitude: u64,
    pub longitude: u64,
}

pub struct PlaceView {
    pub name: Seq<char>,
    pub latitude: u64,
    pub longitude: u64,
}

impl DeepView for Place {
    type V = PlaceView;

    open spec fn deep_view(&self) -> PlaceView {
        PlaceView { name: self.name@, latitude: self.latitude, longitude: self.longitude }
    }
}

/// The first place found.
pub fn place_found(location: &str, places: Vec<Place>) -> (place: Result<Place, String>)
    ensures
        (match place {
            Ok(place) => places@.len() > 0 && place == places@[0],
            Err(message) => places@.len() == 0 && message@ == "open-meteo could not geocode "@ + quoted(location@),
        }),
{
    let mut places = places;
    if places.len() == 0 {
        return Err(cat2("open-meteo could not geocode ", quote(location).as_str()));
    }
    Ok(places.remove(0))
}

pub open spec fn forecast_pairs(latitude: u64, longitude: u64) -> Seq<(Seq<char>, Seq<char>)> {
    seq![
        ("latitude"@, double_text(Number::Float(latitude))),
        ("longitude"@, double_text(Number::Float(longitude))),
        ("current"@, "temperature_2m,weather_code,wind_speed_10m,relative_humidity_2m"@),
    ]
}

/// Where to ask Open-Meteo for the weather at a place.
pub fn forecast_url(place: &Place) -> (url: Result<String, String>)
    ensures
        outcome(url) == url_with_query(FORECAST_BASE@, forecast_pairs(place.latitude, place.longitude)),
{
    proof {
        lemma_bases_take_a_query();
    }
    let pairs: Vec<(String, String)> = vec![
        ("latitude".to_owned(), show_double(Number::Float(place.latitude))),
        ("longitude".to_owned(), show_double(Number::Float(place.longitude))),
        (
            "current".to_owned(),
            "temperature_2m,weather_code,wind_speed_10m,relative_humidity_2m".to_owned(),
        ),
    ];
    assert(pairs.deep_view() =~= forecast_pairs(place.latitude, place.longitude));
    with_query(FORECAST_BASE, &pairs)
}

/// The weather a code of the World Meteorological Organization stands for, in a few words.
pub open spec fn described(code: Option<i64>) -> Seq<char> {
    match code {
        None => "unknown"@,
        Some(n) => if n == 0 {
            "clear sky"@
        } else if n == 1 {
            "mainly clear"@
        } else if n == 2 {
            "partly cloudy"@
        } else if n == 3 {
            "overcast"@
        } else if n == 45 || n == 48 {
            "fog"@
        } else if n == 51 || n == 53 || n == 55 {
            "drizzle"@
        } else if n == 56 || n == 57 {
            "freezing drizzle"@
        } else if n == 61 || n == 63 || n == 65 {
            "rain"@
        } else if n == 66 || n == 67 {
            "freezing rain"@
        } else if n == 71 || n == 73 || n == 75 || n == 77 {
            "snow"@
        } else if 80 <= n <= 82 {
            "rain showers"@
        } else if n == 85 || n == 86 {
            "snow showers"@
        } else if n == 95 {
            "thunderstorm"@
        } else if n == 96 || n == 99 {
            "thunderstorm with hail"@
        } else {
            "unknown"@
        },
    }
}

pub fn weather_code_description(code: Option<i64>) -> (words: &'static str)
    ensures
        words@ == described(code),
{
    match code {
        Some(0) => "clear sky",
        Some(1) => "mainly clear",
        Some(2) => "partly cloudy",
        Some(3) => "overcast",
        Some(45 | 48) => "fog",
        Some(51 | 53 | 55) => "drizzle",
        Some(56 | 57) => "freezing drizzle",
        Some(61 | 63 | 65) => "rain",
        Some(66 | 67) => "freezing rain",
        Some(71 | 73 | 75 | 77) => "snow",
        Some(80 | 81 | 82) => "rain showers",
        Some(85 | 86) => "snow showers",
        Some(95) => "thunderstorm",
        Some(96 | 99) => "thunderstorm with hail",
        _ => "unknown",
    }
}

/// What Open-Meteo says of a place now. Numbers are the bits of doubles.
#[derive(Debug)]
pub struct ForecastCurrent {
    pub time: Option<String>,
    pub temperature_2m: Option<u64>,
    pub weather_code: Option<i64>,
    pub wind_speed_10m: Option<u64>,
    pub relative_humidity_2m: Option<u64>,
}

pub struct ForecastCurrentView {
    pub time: Option<Seq<char>>,
    pub temperature_2m: Option<u64>,
    pub weather_code: Option<i64>,
    pub wind_speed_10m: Option<u64>,
    pub relative_humidity_2m: Option<u64>,
}

impl DeepView for ForecastCurrent {
    type V = ForecastCurrentView;

    open spec fn deep_view(&self) -> ForecastCurrentView {
        ForecastCurrentView {
            time: self.time.deep_view(),
            temperature_2m: self.temperature_2m,
            weather_code: self.weather_code,
            wind_speed_10m: self.wind_speed_10m,
            relative_humidity_2m: self.relative_humidity_2m,
        }
    }
}

pub open spec fn open_meteo_weather(place: Seq<char>, current: Option<ForecastCurrentView>, now: Seq<char>) -> Result<
    WeatherView,
    Seq<char>,
> {
    match current {
        None => Err("open-meteo returned no current block"@),
        Some(current) => match current.temperature_2m {
            None => Err("open-meteo returned no temperature_2m"@),
            Some(temp_c) => Ok(
                WeatherView {
                    location: place,
                    temp_c,
                    temp_f: None,
                    conditions: described(current.weather_code),
                    humidity: current.relative_humidity_2m,
                    wind_kmh: current.wind_speed_10m,
                    source: "open-meteo"@,
                    observed_at: or_text(current.time, now),
                },
            ),
        },
    }
}

/// Open-Meteo's reply as the weather.
pub fn from_open_meteo(place: Place, current: Option<ForecastCurrent>, now: &str) -> (weather: Result<
    Weather,
    String,
>)
    ensures
        outcome(weather) == open_meteo_weather(place.name@, current.deep_view(), now@),
{
    match current {
        None => Err("open-meteo returned no current block".to_owned()),
        Some(current) => match current.temperature_2m {
            None => Err("open-meteo returned no temperature_2m".to_owned()),
            Some(temp_c) => Ok(
                Weather {
                    location: place.name,
                    temp_c,
                    temp_f: None,
                    conditions: weather_code_description(current.weather_code).to_owned(),
                    humidity: current.relative_humidity_2m,
                    wind_kmh: current.wind_speed_10m,
                    source: "open-meteo".to_owned(),
                    observed_at: text_or(current.time, now),
                },
            ),
        },
    }
}

/// The number that a hexadecimal digit stands for.
pub open spec fn hex_value(c: char) -> int {
    if '0' <= c <= '9' {
        c as int - '0' as int
    } else {
        c as int - 'A' as int + 10
    }
}

/// A place's name is written byte by byte: an ASCII letter, a digit or one of five signs as itself, any other byte as a
/// percent sign and two digits that come to it.
pub proof fn law_a_name_is_written_byte_by_byte(bytes: Seq<u8>, byte: u8)
    ensures
        path_encoded(bytes.push(byte)) == path_encoded(bytes) + path_encoded(seq![byte]),
        path_encoded(seq![]).len() == 0,
        ({
            let one = path_encoded(seq![byte]);
            let plain = 0x30 <= byte <= 0x39 || 0x41 <= byte <= 0x5a || 0x61 <= byte <= 0x7a || byte == 0x2d || byte
                == 0x5f || byte == 0x2e || byte == 0x7e || byte == 0x2c;
            &&& plain ==> one == seq![byte as char]
            &&& !plain ==> one.len() == 3 && one[0] == '%' && hex_value(one[1]) * 16 + hex_value(one[2]) == byte
        }),
{
    assert(bytes.push(byte).drop_last() =~= bytes);
    let one = seq![byte];
    assert(one.drop_last() =~= seq![]);
    assert(path_encoded(one.drop_last()) =~= seq![]);
    assert(path_encoded(one) =~= path_byte(byte));
}

/// The weather of wttr.in's is what it says of now, each part in its own field: the place's own name where it gives one,
/// both temperatures, the first description, and the time of the observation.
pub proof fn law_the_weather_of_wttrs_says_what_wttr_says(
    location: Seq<char>,
    current: WttrCurrentView,
    more: Seq<WttrCurrentView>,
    areas: Seq<Seq<Seq<char>>>,
    now: Seq<char>,
)
    ensures
        wttr_weather(location, seq![], areas, now) is Err,
        wttr_weather(location, seq![current] + more, areas, now) is Ok <==> double_in(trimmed(current.temp_c)) is Some,
        wttr_weather(location, seq![current] + more, areas, now) matches Ok(weather) ==> {
            &&& double_in(trimmed(current.temp_c)) == Some(weather.temp_c)
            &&& weather.temp_f == double_in(trimmed(current.temp_f))
            &&& current.humidity matches Some(text) ==> weather.humidity == double_in(trimmed(text))
            &&& current.humidity is None ==> weather.humidity is None
            &&& current.windspeed_kmph matches Some(text) ==> weather.wind_kmh == double_in(trimmed(text))
            &&& current.windspeed_kmph is None ==> weather.wind_kmh is None
            &&& current.weather_desc.len() > 0 ==> weather.conditions == trimmed(current.weather_desc[0])
            &&& current.weather_desc.len() == 0 ==> weather.conditions == "unknown"@
            &&& areas.len() > 0 && areas[0].len() > 0 ==> weather.location == areas[0][0]
            &&& areas.len() == 0 || areas[0].len() == 0 ==> weather.location == location
            &&& current.local_obs_date_time matches Some(time) ==> weather.observed_at == time
            &&& current.local_obs_date_time is None ==> (current.observation_time matches Some(time)
                ==> weather.observed_at == time)
            &&& current.local_obs_date_time is None && current.observation_time is None ==> weather.observed_at
                == now
            &&& weather.source == "wttr.in"@
        },
{
    assert((seq![current] + more)[0] == current);
}

/// The weather of Open-Meteo's is what it says of now, each part in its own field, at the place that was found.
pub proof fn law_the_weather_of_open_meteos_says_what_it_says(
    place: Seq<char>,
    current: ForecastCurrentView,
    now: Seq<char>,
)
    ensures
        open_meteo_weather(place, None, now) is Err,
        open_meteo_weather(place, Some(current), now) is Ok <==> current.temperature_2m is Some,
        open_meteo_weather(place, Some(current), now) matches Ok(weather) ==> {
            &&& current.temperature_2m == Some(weather.temp_c)
            &&& weather.temp_f is None
            &&& weather.location == place
            &&& weather.humidity == current.relative_humidity_2m
            &&& weather.wind_kmh == current.wind_speed_10m
            &&& weather.conditions == described(current.weather_code)
            &&& current.time matches Some(time) ==> weather.observed_at == time
            &&& current.time is None ==> weather.observed_at == now
            &&& weather.source == "open-meteo"@
        },
{
}

/// Which codes stand for which weather.
pub proof fn law_which_codes_stand_for_which_weather(n: i64)
    ensures
        described(None) == "unknown"@,
        n == 0 ==> described(Some(n)) == "clear sky"@,
        n == 1 ==> described(Some(n)) == "mainly clear"@,
        n == 2 ==> described(Some(n)) == "partly cloudy"@,
        n == 3 ==> described(Some(n)) == "overcast"@,
        n == 45 || n == 48 ==> described(Some(n)) == "fog"@,
        n == 51 || n == 53 || n == 55 ==> described(Some(n)) == "drizzle"@,
        n == 56 || n == 57 ==> described(Some(n)) == "freezing drizzle"@,
        n == 61 || n == 63 || n == 65 ==> described(Some(n)) == "rain"@,
        n == 66 || n == 67 ==> described(Some(n)) == "freezing rain"@,
        n == 71 || n == 73 || n == 75 || n == 77 ==> described(Some(n)) == "snow"@,
        n == 80 || n == 81 || n == 82 ==> described(Some(n)) == "rain showers"@,
        n == 85 || n == 86 ==> described(Some(n)) == "snow showers"@,
        n == 95 ==> described(Some(n)) == "thunderstorm"@,
        n == 96 || n == 99 ==> described(Some(n)) == "thunderstorm with hail"@,
        n < 0 || 3 < n < 45 || n > 99 ==> described(Some(n)) == "unknown"@,
{
}

/// Open-Meteo is asked for the place by its own name, and for the weather at the place's own coordinates.
pub proof fn law_open_meteo_is_asked_about_the_place(location: Seq<char>, latitude: u64, longitude: u64)
    ensures
        geocode_pairs(location).len() == 2,
        geocode_pairs(location)[0] == ("name"@, location),
        geocode_pairs(location)[1] == ("count"@, "1"@),
        forecast_pairs(latitude, longitude).len() == 3,
        forecast_pairs(latitude, longitude)[0] == ("latitude"@, double_text(Number::Float(latitude))),
        forecast_pairs(latitude, longitude)[1] == ("longitude"@, double_text(Number::Float(longitude))),
        forecast_pairs(latitude, longitude)[2] == (
            "current"@,
            "temperature_2m,weather_code,wind_speed_10m,relative_humidity_2m"@,
        ),
{
}

/// The view of a weather report shows each of its parts under that part's own name.
pub proof fn law_the_view_of_a_weather_is_its_own(weather: Weather)
    ensures
        weather.deep_view().location == weather.location@,
        weather.deep_view().temp_c == weather.temp_c,
        weather.deep_view().temp_f == weather.temp_f,
        weather.deep_view().conditions == weather.conditions@,
        weather.deep_view().humidity == weather.humidity,
        weather.deep_view().wind_kmh == weather.wind_kmh,
        weather.deep_view().source == weather.source@,
        weather.deep_view().observed_at == weather.observed_at@,
{
}

/// The view of a current report shows each of its parts under that part's own name.
pub proof fn law_the_view_of_a_wttr_current_is_its_own(wttr_current: WttrCurrent)
    ensures
        wttr_current.deep_view().temp_c == wttr_current.temp_c@,
        wttr_current.deep_view().temp_f == wttr_current.temp_f@,
        wttr_current.deep_view().weather_desc == wttr_current.weather_desc.deep_view(),
        wttr_current.deep_view().humidity == wttr_current.humidity.deep_view(),
        wttr_current.deep_view().windspeed_kmph == wttr_current.windspeed_kmph.deep_view(),
        wttr_current.deep_view().local_obs_date_time == wttr_current.local_obs_date_time.deep_view(),
        wttr_current.deep_view().observation_time == wttr_current.observation_time.deep_view(),
{
}

/// The view of a place shows each of its parts under that part's own name.
pub proof fn law_the_view_of_a_place_is_its_own(place: Place)
    ensures
        place.deep_view().name == place.name@,
        place.deep_view().latitude == place.latitude,
        place.deep_view().longitude == place.longitude,
{
}

/// The view of a current forecast shows each of its parts under that part's own name.
pub proof fn law_the_view_of_a_forecast_current_is_its_own(forecast_current: ForecastCurrent)
    ensures
        forecast_current.deep_view().time == forecast_current.time.deep_view(),
        forecast_current.deep_view().temperature_2m == forecast_current.temperature_2m,
        forecast_current.deep_view().weather_code == forecast_current.weather_code,
        forecast_current.deep_view().wind_speed_10m == forecast_current.wind_speed_10m,
        forecast_current.deep_view().relative_humidity_2m == forecast_current.relative_humidity_2m,
{
}

/// What is told where a service gives no weather.
pub proof fn law_what_is_told_where_there_is_no_weather(
    location: Seq<char>,
    current: WttrCurrentView,
    areas: Seq<Seq<Seq<char>>>,
    forecast: ForecastCurrentView,
    now: Seq<char>,
)
    ensures
        wttr_weather(location, seq![], areas, now) == Err::<WeatherView, Seq<char>>(
            "wttr.in returned no current_condition"@,
        ),
        double_in(trimmed(current.temp_c)) is None ==> wttr_weather(location, seq![current], areas, now) == Err::<
            WeatherView,
            Seq<char>,
        >("wttr.in returned no temp_C"@),
        open_meteo_weather(location, None, now) == Err::<WeatherView, Seq<char>>(
            "open-meteo returned no current block"@,
        ),
        forecast.temperature_2m is None ==> open_meteo_weather(location, Some(forecast), now) == Err::<
            WeatherView,
            Seq<char>,
        >("open-meteo returned no temperature_2m"@),
{
}

} // verus!
