//! The weather-report core. One unit of work fetches a response body for one
//! city; this module holds everything the unit then does with it: decoding
//! the body, parsing it as JSON, extracting the city name, the weather
//! description and the temperature, and formatting the reported lines. It
//! also builds the request URLs the dispatcher hands to the units.
//!
//! Every unit yields exactly one `UnitResult`, success or failure, so the
//! collector waiting for one result per unit can never starve.

use vstd::prelude::*;
use vstd::string::StringExecFns;
use vstd::utf8::valid_utf8;
use vstd::utf8::decode_utf8;

use crate::chars::chars_to_string;
use crate::chars::str_to_chars;
use crate::chars::utf8_str;
use crate::json::Json;
use crate::json::JsonV;
use crate::json::element_of;
use crate::json::member_of;
use crate::parse::document;
use crate::parse::parse_document;

verus! {

/// A successfully parsed weather answer for one city: the city name the
/// service resolved (not necessarily the query string), the weather
/// description, and the temperature in degrees Celsius, kept as the number
/// token of the response so that no precision is lost.
#[derive(Debug, PartialEq, Eq)]
pub struct CallResult {
    pub city: String,
    pub weather: String,
    pub temperature: String,
}

/// Mathematical model of a `CallResult`.
pub struct CallResultV {
    pub city: Seq<char>,
    pub weather: Seq<char>,
    pub temperature: Seq<char>,
}

impl View for CallResult {
    type V = CallResultV;

    open spec fn view(&self) -> CallResultV {
        CallResultV { city: self.city@, weather: self.weather@, temperature: self.temperature@ }
    }
}

impl DeepView for CallResult {
    type V = CallResultV;

    open spec fn deep_view(&self) -> CallResultV {
        self@
    }
}

/// Why a response body could not be turned into a `CallResult`.
#[derive(Clone, Copy, Debug, PartialEq, Eq, Structural)]
pub enum ParseError {
    /// The body is not a JSON document.
    Syntax,
    /// The document has no `name` member holding a string.
    Name,
    /// The document has no `weather` member holding an array whose first
    /// element is an object with a `description` member holding a string.
    Weather,
    /// The document has no `main` member holding an object with a `temp`
    /// member holding a number.
    Temperature,
}

/// The resolved city name of a response document: the string under `name`.
pub open spec fn name_field(doc: JsonV) -> Option<Seq<char>> {
    match member_of(doc, "name"@) {
        Some(JsonV::Str(s)) => Some(s),
        _ => None,
    }
}

/// The weather description of a response document: the string under
/// `description` in the first element of the array under `weather`.
pub open spec fn weather_field(doc: JsonV) -> Option<Seq<char>> {
    match member_of(doc, "weather"@) {
        Some(w) => match element_of(w, 0) {
            Some(e) => match member_of(e, "description"@) {
                Some(JsonV::Str(s)) => Some(s),
                _ => None,
            },
            None => None,
        },
        None => None,
    }
}

/// The temperature of a response document: the number token under `temp` in
/// the object under `main`.
pub open spec fn temp_field(doc: JsonV) -> Option<Seq<char>> {
    match member_of(doc, "main"@) {
        Some(m) => match member_of(m, "temp"@) {
            Some(JsonV::Num(t)) => Some(t),
            _ => None,
        },
        None => None,
    }
}

/// What parsing a response body yields: the three extracted fields, or the
/// first error on the fixed path name, weather, temperature.
pub open spec fn weather_outcome(s: Seq<char>) -> Result<CallResultV, ParseError> {
    match document(s) {
        None => Err(ParseError::Syntax),
        Some(doc) => match name_field(doc) {
            None => Err(ParseError::Name),
            Some(name) => match weather_field(doc) {
                None => Err(ParseError::Weather),
                Some(weather) => match temp_field(doc) {
                    None => Err(ParseError::Temperature),
                    Some(temp) => Ok(
                        CallResultV { city: name, weather: weather, temperature: temp },
                    ),
                },
            },
        },
    }
}

/// Parses a response body and extracts the city name, the weather
/// description and the temperature. Returns `Ok` exactly when the body is a
/// JSON document carrying all three fields, and otherwise says which part
/// was missing first.
pub fn parse_weather_report(body: &str) -> (r: Result<CallResult, ParseError>)
    ensures
        r matches Ok(cr) ==> weather_outcome(body@) == Ok::<CallResultV, ParseError>(cr@),
        r matches Err(e) ==> weather_outcome(body@) == Err::<CallResultV, ParseError>(e),
{
    let chars = str_to_chars(body);
    let doc = match parse_document(&chars) {
        Some(d) => d,
        None => {
            return Err(ParseError::Syntax);
        },
    };
    let name_key = str_to_chars("name");
    let city: String = match doc.get_member(&name_key) {
        Some(v) => match v {
            Json::Str(content) => chars_to_string(content),
            _ => {
                return Err(ParseError::Name);
            },
        },
        None => {
            return Err(ParseError::Name);
        },
    };
    let weather_key = str_to_chars("weather");
    let desc_key = str_to_chars("description");
    let weather: String = match doc.get_member(&weather_key) {
        Some(w) => match w.get_element(0) {
            Some(e) => match e.get_member(&desc_key) {
                Some(d) => match d {
                    Json::Str(content) => chars_to_string(content),
                    _ => {
                        return Err(ParseError::Weather);
                    },
                },
                None => {
                    return Err(ParseError::Weather);
                },
            },
            None => {
                return Err(ParseError::Weather);
            },
        },
        None => {
            return Err(ParseError::Weather);
        },
    };
    let main_key = str_to_chars("main");
    let temp_key = str_to_chars("temp");
    let temperature: String = match doc.get_member(&main_key) {
        Some(m) => match m.get_member(&temp_key) {
            Some(t) => match t {
                Json::Num(token) => chars_to_string(token),
                _ => {
                    return Err(ParseError::Temperature);
                },
            },
            None => {
                return Err(ParseError::Temperature);
            },
        },
        None => {
            return Err(ParseError::Temperature);
        },
    };
    Ok(CallResult { city, weather, temperature })
}

/// The text a response body is read as: its UTF-8 decoding, or, when the
/// bytes are not valid UTF-8, a diagnostic placeholder naming the city. The
/// placeholder is not valid JSON, so parsing it always fails.
pub open spec fn decoded_body(bytes: Seq<u8>, city: Seq<char>) -> Seq<char> {
    if valid_utf8(bytes) {
        decode_utf8(bytes)
    } else {
        placeholder(city)
    }
}

/// The diagnostic placeholder for a body that is not valid UTF-8.
pub open spec fn placeholder(city: Seq<char>) -> Seq<char> {
    "Malformed data encountered while fetching weather data for "@ + city
}

/// Decodes a response body, replacing one that is not valid UTF-8 by the
/// diagnostic placeholder.
pub fn decode_body(bytes: &[u8], city: &str) -> (r: String)
    ensures
        r@ == decoded_body(bytes@, city@),
{
    match utf8_str(bytes) {
        Some(s) => s.to_owned(),
        None => {
            let mut r = String::from_str(
                "Malformed data encountered while fetching weather data for ",
            );
            r.append(city);
            r
        },
    }
}

/// What one unit of work hands to the collector: the parsed answer, or the
/// queried city together with the reason the response was unusable.
#[derive(Debug, PartialEq, Eq)]
pub enum UnitResult {
    Success(CallResult),
    Failure { city: String, error: ParseError },
}

/// Mathematical model of a `UnitResult`.
pub enum UnitResultV {
    Success(CallResultV),
    Failure { city: Seq<char>, error: ParseError },
}

impl View for UnitResult {
    type V = UnitResultV;

    open spec fn view(&self) -> UnitResultV {
        match self {
            UnitResult::Success(cr) => UnitResultV::Success(cr@),
            UnitResult::Failure { city, error } => UnitResultV::Failure {
                city: city@,
                error: *error,
            },
        }
    }
}

impl DeepView for UnitResult {
    type V = UnitResultV;

    open spec fn deep_view(&self) -> UnitResultV {
        self@
    }
}

/// The one result a unit yields for a fetched body: a success carrying the
/// parsed fields, or a failure naming the queried city and the first error.
pub open spec fn unit_outcome(bytes: Seq<u8>, city: Seq<char>) -> UnitResultV {
    match weather_outcome(decoded_body(bytes, city)) {
        Ok(cr) => UnitResultV::Success(cr),
        Err(e) => UnitResultV::Failure { city: city, error: e },
    }
}

/// Turns the raw bytes fetched for one city into that unit's result. This
/// never fails to yield a result, whatever the bytes hold: a unit always has
/// exactly one message for the collector.
pub fn process_body(city_query: &str, body: &[u8]) -> (r: UnitResult)
    ensures
        r@ == unit_outcome(body@, city_query@),
{
    let text = decode_body(body, city_query);
    match parse_weather_report(text.as_str()) {
        Ok(cr) => UnitResult::Success(cr),
        Err(e) => UnitResult::Failure { city: city_query.to_owned(), error: e },
    }
}

/// The request URL for one city: the service address with metric units, the
/// city as the `q` parameter and the key as the `appid` parameter.
pub open spec fn url_of(key: Seq<char>, city: Seq<char>) -> Seq<char> {
    "http://api.openweathermap.org/data/2.5/weather?units=metric&q="@ + city + "&appid="@ + key
}

/// Builds the request URL for one city.
pub fn build_url(apikey: &str, city: &str) -> (r: String)
    ensures
        r@ == url_of(apikey@, city@),
{
    let mut r = String::from_str("http://api.openweathermap.org/data/2.5/weather?units=metric&q=");
    r.append(city);
    r.append("&appid=");
    r.append(apikey);
    r
}

/// The request URLs for a whole run, one per city, in input order.
pub open spec fn urls_of(cities: Seq<Seq<char>>, key: Seq<char>) -> Seq<Seq<char>> {
    cities.map_values(|city: Seq<char>| url_of(key, city))
}

/// Builds one request URL per input city: the dispatcher spawns exactly one
/// unit of work for each of them.
pub fn urls_for(apikey: &str, cities: &Vec<String>) -> (r: Vec<String>)
    ensures
        r.deep_view() == urls_of(cities.deep_view(), apikey@),
{
    let mut r: Vec<String> = Vec::new();
    let mut i: usize = 0;
    while i < cities.len()
        invariant
            i <= cities@.len(),
            r@.len() == i,
            forall|j: int| 0 <= j < i ==> #[trigger] r@[j]@ == url_of(apikey@, cities@[j]@),
        decreases cities@.len() - i,
    {
        r.push(build_url(apikey, cities[i].as_str()));
        i = i + 1;
    }
    proof {
        let target = urls_of(cities.deep_view(), apikey@);
        assert(cities.deep_view().len() == cities@.len());
        assert forall|j: int| 0 <= j < r@.len() implies r.deep_view()[j] == target[j] by {
            assert(cities.deep_view()[j] == cities@[j]@);
            assert(target[j] == url_of(apikey@, cities.deep_view()[j]));
            assert(r.deep_view()[j] == r@[j]@);
        }
        assert(r.deep_view() =~= target);
    }
    r
}

/// The text of each failure reason.
pub open spec fn error_text(e: ParseError) -> Seq<char> {
    match e {
        ParseError::Syntax => "the response is not valid JSON"@,
        ParseError::Name => "the response names no city"@,
        ParseError::Weather => "the response carries no weather description"@,
        ParseError::Temperature => "the response carries no temperature"@,
    }
}

/// The reason a unit failed, as text.
pub fn error_message(e: ParseError) -> (r: &'static str)
    ensures
        r@ == error_text(e),
{
    match e {
        ParseError::Syntax => "the response is not valid JSON",
        ParseError::Name => "the response names no city",
        ParseError::Weather => "the response carries no weather description",
        ParseError::Temperature => "the response carries no temperature",
    }
}

/// The line reported for a successful unit.
pub open spec fn success_line(cr: CallResultV) -> Seq<char> {
    "Temperature in "@ + cr.city + " is "@ + cr.temperature + "C with "@ + cr.weather
}

/// The line reported for a failed unit.
pub open spec fn failure_line(city: Seq<char>, e: ParseError) -> Seq<char> {
    "Could not get weather for "@ + city + ": "@ + error_text(e)
}

/// The line reported for a unit's result.
pub open spec fn report_line(u: UnitResultV) -> Seq<char> {
    match u {
        UnitResultV::Success(cr) => success_line(cr),
        UnitResultV::Failure { city, error } => failure_line(city, error),
    }
}

/// Formats the line reported for a successful unit.
pub fn format_line(cr: &CallResult) -> (r: String)
    ensures
        r@ == success_line(cr@),
{
    let mut r = String::from_str("Temperature in ");
    r.append(cr.city.as_str());
    r.append(" is ");
    r.append(cr.temperature.as_str());
    r.append("C with ");
    r.append(cr.weather.as_str());
    r
}

/// Formats the line reported for a unit's result.
pub fn report_line_of(u: &UnitResult) -> (r: String)
    ensures
        r@ == report_line(u@),
{
    match u {
        UnitResult::Success(cr) => format_line(cr),
        UnitResult::Failure { city, error } => {
            let mut r = String::from_str("Could not get weather for ");
            r.append(city.as_str());
            r.append(": ");
            r.append(error_message(*error));
            r
        },
    }
}

/// The lines reported for a whole run, one per unit result, in arrival
/// order.
pub open spec fn lines_of(results: Seq<UnitResultV>) -> Seq<Seq<char>> {
    results.map_values(|u: UnitResultV| report_line(u))
}

/// Formats one line per collected unit result, in arrival order.
pub fn emit_lines(results: &Vec<UnitResult>) -> (r: Vec<String>)
    ensures
        r.deep_view() == lines_of(results.deep_view()),
{
    let mut r: Vec<String> = Vec::new();
    let mut i: usize = 0;
    while i < results.len()
        invariant
            i <= results@.len(),
            r@.len() == i,
            forall|j: int| 0 <= j < i ==> #[trigger] r@[j]@ == report_line(results@[j]@),
        decreases results@.len() - i,
    {
        r.push(report_line_of(&results[i]));
        i = i + 1;
    }
    proof {
        let target = lines_of(results.deep_view());
        assert(results.deep_view().len() == results@.len());
        assert forall|j: int| 0 <= j < r@.len() implies r.deep_view()[j] == target[j] by {
            assert(results.deep_view()[j] == results@[j]@);
            assert(target[j] == report_line(results.deep_view()[j]));
            assert(r.deep_view()[j] == r@[j]@);
        }
        assert(r.deep_view() =~= target);
    }
    r
}

/// One request URL is built per input city and one line is reported per
/// collected result: a run over N cities dispatches N units, and collecting
/// one result from each yields exactly N lines, in arrival order.
pub proof fn lemma_one_line_per_city(cities: Seq<Seq<char>>, key: Seq<char>, results: Seq<
    UnitResultV,
>)
    requires
        results.len() == cities.len(),
    ensures
        urls_of(cities, key).len() == cities.len(),
        lines_of(results).len() == cities.len(),
        forall|j: int|
            0 <= j < cities.len() ==> urls_of(cities, key)[j] == url_of(key, cities[j]),
        forall|j: int|
            0 <= j < results.len() ==> lines_of(results)[j] == report_line(results[j]),
{
}

/// A run over no cities builds no request URLs and reports no lines.
pub proof fn lemma_empty_run(key: Seq<char>)
    ensures
        urls_of(Seq::<Seq<char>>::empty(), key) =~= Seq::<Seq<char>>::empty(),
        lines_of(Seq::<UnitResultV>::empty()) =~= Seq::<Seq<char>>::empty(),
{
}

/// A response body that is not valid UTF-8 is read as the diagnostic
/// placeholder, and the placeholder never parses as JSON: such a unit always
/// fails with a syntax error and never yields a made-up answer.
pub proof fn lemma_invalid_utf8_fails(bytes: Seq<u8>, city: Seq<char>)
    requires
        !valid_utf8(bytes),
    ensures
        unit_outcome(bytes, city) == (UnitResultV::Failure {
            city: city,
            error: ParseError::Syntax,
        }),
{
    reveal_strlit("Malformed data encountered while fetching weather data for ");
    let s = placeholder(city);
    assert(s[0] == 'M');
    assert(crate::parse::skip_ws(s, 0) == 0);
    assert(crate::parse::value_at(s, 0, s.len()) is None);
    assert(document(s) is None);
}

} // verus!

