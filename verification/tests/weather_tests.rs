use weather_threads::weather::CallResult;
use weather_threads::weather::ParseError;
use weather_threads::weather::UnitResult;
use weather_threads::weather::build_url;
use weather_threads::weather::decode_body;
use weather_threads::weather::emit_lines;
use weather_threads::weather::error_message;
use weather_threads::weather::format_line;
use weather_threads::weather::parse_weather_report;
use weather_threads::weather::process_body;
use weather_threads::weather::report_line_of;
use weather_threads::weather::urls_for;

const PARIS: &str = r#"{"name":"Paris","weather":[{"description":"clear sky"}],"main":{"temp":18.5}}"#;

#[test]
fn parses_a_full_response() {
    let r = parse_weather_report(PARIS).unwrap();
    assert_eq!(r.city, "Paris");
    assert_eq!(r.weather, "clear sky");
    assert_eq!(r.temperature, "18.5");
}

#[test]
fn formats_the_expected_line() {
    let r = parse_weather_report(PARIS).unwrap();
    assert_eq!(format_line(&r), "Temperature in Paris is 18.5C with clear sky");
}

#[test]
fn missing_temp_is_a_temperature_error() {
    let body = r#"{"name":"Paris","weather":[{"description":"clear sky"}],"main":{}}"#;
    assert_eq!(parse_weather_report(body), Err(ParseError::Temperature));
}

#[test]
fn missing_main_is_a_temperature_error() {
    let body = r#"{"name":"Paris","weather":[{"description":"clear sky"}]}"#;
    assert_eq!(parse_weather_report(body), Err(ParseError::Temperature));
}

#[test]
fn temp_that_is_not_a_number_is_a_temperature_error() {
    let body = r#"{"name":"Paris","weather":[{"description":"clear sky"}],"main":{"temp":"18"}}"#;
    assert_eq!(parse_weather_report(body), Err(ParseError::Temperature));
}

#[test]
fn missing_name_is_a_name_error() {
    let body = r#"{"weather":[{"description":"clear sky"}],"main":{"temp":18.5}}"#;
    assert_eq!(parse_weather_report(body), Err(ParseError::Name));
}

#[test]
fn name_that_is_not_a_string_is_a_name_error() {
    let body = r#"{"name":3,"weather":[{"description":"clear sky"}],"main":{"temp":18.5}}"#;
    assert_eq!(parse_weather_report(body), Err(ParseError::Name));
}

#[test]
fn missing_weather_is_a_weather_error() {
    let body = r#"{"name":"Paris","main":{"temp":18.5}}"#;
    assert_eq!(parse_weather_report(body), Err(ParseError::Weather));
}

#[test]
fn empty_weather_array_is_a_weather_error() {
    let body = r#"{"name":"Paris","weather":[],"main":{"temp":18.5}}"#;
    assert_eq!(parse_weather_report(body), Err(ParseError::Weather));
}

#[test]
fn weather_without_description_is_a_weather_error() {
    let body = r#"{"name":"Paris","weather":[{"id":800}],"main":{"temp":18.5}}"#;
    assert_eq!(parse_weather_report(body), Err(ParseError::Weather));
}

#[test]
fn name_is_checked_before_weather_and_temperature() {
    assert_eq!(parse_weather_report("{}"), Err(ParseError::Name));
}

#[test]
fn empty_body_is_a_syntax_error() {
    assert_eq!(parse_weather_report(""), Err(ParseError::Syntax));
}

#[test]
fn unbalanced_body_is_a_syntax_error() {
    assert_eq!(parse_weather_report(r#"{"name":"Paris""#), Err(ParseError::Syntax));
}

#[test]
fn trailing_text_is_a_syntax_error() {
    assert_eq!(parse_weather_report(r#"{} extra"#), Err(ParseError::Syntax));
}

#[test]
fn top_level_array_is_a_name_error() {
    // Valid JSON, but an array has no members to look up.
    assert_eq!(parse_weather_report(r#"[1, 2]"#), Err(ParseError::Name));
}

#[test]
fn last_duplicate_key_wins() {
    let body = r#"{"name":"Ghost","name":"Paris","weather":[{"description":"mist"}],"main":{"temp":7}}"#;
    let r = parse_weather_report(body).unwrap();
    assert_eq!(r.city, "Paris");
    assert_eq!(format_line(&r), "Temperature in Paris is 7C with mist");
}

#[test]
fn whitespace_and_extra_members_are_tolerated() {
    let body = " {\n\t\"ignored\": [ { \"deep\" : [ null , true , false ] } ] ,\r\n \"name\" : \"Oslo\" , \"weather\" : [ { \"description\" : \"light snow\" } , { \"description\" : \"other\" } ] , \"main\" : { \"pressure\" : 1020 , \"temp\" : -3.25 } } ";
    let r = parse_weather_report(body).unwrap();
    assert_eq!(r.city, "Oslo");
    assert_eq!(r.weather, "light snow");
    assert_eq!(r.temperature, "-3.25");
}

#[test]
fn number_tokens_keep_their_spelling() {
    let body = r#"{"name":"X","weather":[{"description":"d"}],"main":{"temp":18.50}}"#;
    let r = parse_weather_report(body).unwrap();
    assert_eq!(r.temperature, "18.50");
    let body = r#"{"name":"X","weather":[{"description":"d"}],"main":{"temp":1e3}}"#;
    assert_eq!(parse_weather_report(body).unwrap().temperature, "1e3");
    let body = r#"{"name":"X","weather":[{"description":"d"}],"main":{"temp":-0.5E+2}}"#;
    assert_eq!(parse_weather_report(body).unwrap().temperature, "-0.5E+2");
}

#[test]
fn malformed_numbers_are_syntax_errors() {
    for bad in ["01", "+5", "1.", ".5", "-", "1e", "1e+", "--1"] {
        let body = format!(r#"{{"name":"X","main":{{"temp":{}}}}}"#, bad);
        assert_eq!(parse_weather_report(&body), Err(ParseError::Syntax), "{}", bad);
    }
}

#[test]
fn string_escapes_are_decoded() {
    let body = r#"{"name":"Paris","weather":[{"description":"a\"b\\c\/d\ne\tf"}],"main":{"temp":0}}"#;
    let r = parse_weather_report(body).unwrap();
    assert_eq!(r.city, "Paris");
    assert_eq!(r.weather, "a\"b\\c/d\ne\tf");
}

#[test]
fn unicode_escapes_are_decoded() {
    let body = r#"{"name":"P\u0061r\u0069s","weather":[{"description":"d"}],"main":{"temp":0}}"#;
    let r = parse_weather_report(body).unwrap();
    assert_eq!(r.city, "Paris");
}

#[test]
fn surrogate_pairs_name_one_character() {
    let body = r#"{"name":"\uD83D\uDE00","weather":[{"description":"d"}],"main":{"temp":0}}"#;
    let r = parse_weather_report(body).unwrap();
    assert_eq!(r.city, "\u{1F600}");
}

#[test]
fn lone_surrogates_are_syntax_errors() {
    let body = r#"{"name":"\uD83D","weather":[{"description":"d"}],"main":{"temp":0}}"#;
    assert_eq!(parse_weather_report(body), Err(ParseError::Syntax));
    let body = r#"{"name":"\uDE00","weather":[{"description":"d"}],"main":{"temp":0}}"#;
    assert_eq!(parse_weather_report(body), Err(ParseError::Syntax));
}

#[test]
fn raw_control_characters_are_syntax_errors() {
    let body = "{\"name\":\"a\nb\"}";
    assert_eq!(parse_weather_report(body), Err(ParseError::Syntax));
}

#[test]
fn decode_body_keeps_valid_utf8() {
    let bytes = "z\u{00FC}rich \u{1F324}".as_bytes();
    assert_eq!(decode_body(bytes, "Zurich"), "z\u{00FC}rich \u{1F324}");
}

#[test]
fn decode_body_replaces_invalid_utf8() {
    let bytes = [0xFFu8, 0xFE, 0x20];
    assert_eq!(
        decode_body(&bytes, "Paris"),
        "Malformed data encountered while fetching weather data for Paris"
    );
}

#[test]
fn invalid_utf8_body_fails_with_a_syntax_error() {
    let bytes = [0xC3u8, 0x28];
    let r = process_body("Paris", &bytes);
    assert_eq!(
        r,
        UnitResult::Failure { city: "Paris".to_string(), error: ParseError::Syntax }
    );
}

#[test]
fn a_unit_always_yields_exactly_one_result() {
    let ok = process_body("Paris", PARIS.as_bytes());
    assert!(matches!(ok, UnitResult::Success(_)));
    let empty = process_body("Paris", b"");
    assert!(matches!(empty, UnitResult::Failure { .. }));
    let truncated = process_body("Paris", &PARIS.as_bytes()[..10]);
    assert!(matches!(truncated, UnitResult::Failure { .. }));
}

#[test]
fn build_url_embeds_city_and_key() {
    assert_eq!(
        build_url("SECRET-REDACTED", "Paris"),
        "http://api.openweathermap.org/data/2.5/weather?units=metric&q=Paris&appid=SECRET-REDACTED"
    );
}

#[test]
fn one_url_per_city_in_input_order() {
    let cities = vec!["Paris".to_string(), "Oslo".to_string(), "Lima".to_string()];
    let urls = urls_for("k", &cities);
    assert_eq!(urls.len(), 3);
    assert_eq!(urls[0], "http://api.openweathermap.org/data/2.5/weather?units=metric&q=Paris&appid=k");
    assert_eq!(urls[1], "http://api.openweathermap.org/data/2.5/weather?units=metric&q=Oslo&appid=k");
    assert_eq!(urls[2], "http://api.openweathermap.org/data/2.5/weather?units=metric&q=Lima&appid=k");
}

#[test]
fn no_cities_means_no_urls_and_no_lines() {
    let urls = urls_for("k", &Vec::new());
    assert!(urls.is_empty());
    let lines = emit_lines(&Vec::new());
    assert!(lines.is_empty());
}

#[test]
fn one_line_per_result_in_arrival_order() {
    let results = vec![
        UnitResult::Success(CallResult {
            city: "Paris".to_string(),
            weather: "clear sky".to_string(),
            temperature: "18.5".to_string(),
        }),
        UnitResult::Failure { city: "Atlantis".to_string(), error: ParseError::Name },
        UnitResult::Success(CallResult {
            city: "Oslo".to_string(),
            weather: "mist".to_string(),
            temperature: "-3".to_string(),
        }),
    ];
    let lines = emit_lines(&results);
    assert_eq!(lines.len(), 3);
    assert_eq!(lines[0], "Temperature in Paris is 18.5C with clear sky");
    assert_eq!(lines[1], "Could not get weather for Atlantis: the response names no city");
    assert_eq!(lines[2], "Temperature in Oslo is -3C with mist");
}

#[test]
fn failure_lines_name_the_city_and_the_reason() {
    let r = UnitResult::Failure { city: "Paris".to_string(), error: ParseError::Syntax };
    assert_eq!(
        report_line_of(&r),
        "Could not get weather for Paris: the response is not valid JSON"
    );
}

#[test]
fn each_error_has_its_own_message() {
    assert_eq!(error_message(ParseError::Syntax), "the response is not valid JSON");
    assert_eq!(error_message(ParseError::Name), "the response names no city");
    assert_eq!(
        error_message(ParseError::Weather),
        "the response carries no weather description"
    );
    assert_eq!(
        error_message(ParseError::Temperature),
        "the response carries no temperature"
    );
}

#[test]
fn a_mocked_run_reports_one_line_per_city() {
    let cities = vec!["Paris".to_string(), "Oslo".to_string()];
    let urls = urls_for("k", &cities);
    assert_eq!(urls.len(), cities.len());
    let mocked_bodies = [
        r#"{"name":"Paris","weather":[{"description":"clear sky"}],"main":{"temp":18.5}}"#,
        r#"{"name":"Oslo","weather":[{"description":"snow"}],"main":{"temp":-1}}"#,
    ];
    let mut results = Vec::new();
    for (city, body) in cities.iter().zip(mocked_bodies) {
        results.push(process_body(city, body.as_bytes()));
    }
    let lines = emit_lines(&results);
    assert_eq!(lines.len(), cities.len());
    assert_eq!(lines[0], "Temperature in Paris is 18.5C with clear sky");
    assert_eq!(lines[1], "Temperature in Oslo is -1C with snow");
}
