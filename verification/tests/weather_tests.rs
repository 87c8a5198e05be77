use weather::decimal::Decimal;
use weather::driver::{
    next_state, present_outcome, to_lower_ascii, trim_ascii, wants_another, DriverState,
    FetchOutcome, StepOutput,
};
use weather::fetch::{build_url, query_url, WeatherQuery};
use weather::present::{condition_color, format_report, icon_bytes, temperature_icon, Color, Icon};
use weather::report::{decode_error_text, decode_weather, DecodeError, WeatherReport};

fn dec(neg: bool, mantissa: u64, scale: u8) -> Decimal {
    Decimal { neg, mantissa, scale }
}

fn sample_report() -> WeatherReport {
    WeatherReport {
        name: b"Paris".to_vec(),
        description: b"clear sky".to_vec(),
        temp: dec(false, 2134, 2),
        humidity: dec(false, 550, 1),
        pressure: dec(false, 10132, 1),
        wind_speed: dec(false, 36, 1),
    }
}

const GOOD_BODY: &[u8] = br#"{"weather":[{"description":"clear sky"}],"main":{"temp":21.34,"humidity":55,"pressure":1013.2},"wind":{"speed":3.6},"name":"Paris"}"#;

#[test]
fn icon_bands() {
    assert_eq!(temperature_icon(&dec(true, 50, 1)), Icon::Cold);
    assert_eq!(temperature_icon(&dec(true, 1, 2)), Icon::Cold);
    assert_eq!(temperature_icon(&dec(false, 0, 0)), Icon::Cold);
    assert_eq!(temperature_icon(&dec(false, 99, 1)), Icon::Cold);
    assert_eq!(temperature_icon(&dec(false, 100, 1)), Icon::Mild);
    assert_eq!(temperature_icon(&dec(false, 10, 0)), Icon::Mild);
    assert_eq!(temperature_icon(&dec(false, 199, 1)), Icon::Mild);
    assert_eq!(temperature_icon(&dec(false, 20, 0)), Icon::Warm);
    assert_eq!(temperature_icon(&dec(false, 2999, 2)), Icon::Warm);
    assert_eq!(temperature_icon(&dec(false, 30, 0)), Icon::Hot);
    assert_eq!(temperature_icon(&dec(false, 355, 1)), Icon::Hot);
}

#[test]
fn condition_colors() {
    assert_eq!(condition_color(b"clear sky"), Color::BrightYellow);
    assert_eq!(condition_color(b"few clouds"), Color::BrightBlue);
    assert_eq!(condition_color(b"scattered clouds"), Color::BrightBlue);
    assert_eq!(condition_color(b"broken clouds"), Color::BrightBlue);
    assert_eq!(condition_color(b"overcast clouds"), Color::Dimmed);
    assert_eq!(condition_color(b"mist"), Color::Dimmed);
    assert_eq!(condition_color(b"haze"), Color::Dimmed);
    assert_eq!(condition_color(b"smoke"), Color::Dimmed);
    assert_eq!(condition_color(b"sand"), Color::Dimmed);
    assert_eq!(condition_color(b"dust"), Color::Dimmed);
    assert_eq!(condition_color(b"fog"), Color::Dimmed);
    assert_eq!(condition_color(b"squalls"), Color::Dimmed);
    assert_eq!(condition_color(b"shower rain"), Color::BrightCyan);
    assert_eq!(condition_color(b"rain"), Color::BrightCyan);
    assert_eq!(condition_color(b"thunderstorm"), Color::BrightCyan);
    assert_eq!(condition_color(b"snow"), Color::BrightCyan);
}

#[test]
fn condition_color_default() {
    assert_eq!(condition_color(b"tornado"), Color::Normal);
    assert_eq!(condition_color(b"Clear sky"), Color::Normal);
    assert_eq!(condition_color(b"clear sky "), Color::Normal);
    assert_eq!(condition_color(b""), Color::Normal);
}

#[test]
fn icon_bytes_are_the_emoji() {
    assert_eq!(String::from_utf8(icon_bytes(Icon::Cold)).unwrap(), "\u{2744}\u{fe0f}");
    assert_eq!(String::from_utf8(icon_bytes(Icon::Mild)).unwrap(), "\u{26c5}");
    assert_eq!(String::from_utf8(icon_bytes(Icon::Warm)).unwrap(), "\u{1f324}\u{fe0f}");
    assert_eq!(String::from_utf8(icon_bytes(Icon::Hot)).unwrap(), "\u{1f525}");
}

#[test]
fn format_report_example() {
    let rep = sample_report();
    assert!(rep.is_wf());
    let out = format_report(&rep);
    let text = String::from_utf8(out).unwrap();
    let warm = String::from_utf8(icon_bytes(Icon::Warm)).unwrap();
    assert!(text.contains("Paris"));
    assert!(text.contains("clear sky"));
    assert!(text.contains(&warm));
    assert!(text.contains("21.3"));
    assert!(text.contains("55.0"));
    assert!(text.contains("1013.2"));
    assert!(text.contains("3.6"));
    assert!(text.starts_with("Weather in Paris: clear sky "));
}

#[test]
fn format_rounds_half_away_and_signs() {
    let mut rep = sample_report();
    rep.temp = dec(false, 2135, 2);
    let text = String::from_utf8(format_report(&rep)).unwrap();
    assert!(text.contains("Temperature: 21.4 "));
    rep.temp = dec(true, 54, 1);
    let text = String::from_utf8(format_report(&rep)).unwrap();
    assert!(text.contains("Temperature: -5.4 "));
    rep.temp = dec(false, 7, 0);
    let text = String::from_utf8(format_report(&rep)).unwrap();
    assert!(text.contains("Temperature: 7.0 "));
}

#[test]
fn decode_success() {
    let rep = decode_weather(GOOD_BODY).unwrap();
    assert_eq!(rep.name, b"Paris".to_vec());
    assert_eq!(rep.description, b"clear sky".to_vec());
    assert_eq!(rep.temp, dec(false, 2134, 2));
    assert_eq!(rep.humidity, dec(false, 55, 0));
    assert_eq!(rep.pressure, dec(false, 10132, 1));
    assert_eq!(rep.wind_speed, dec(false, 36, 1));
    assert!(rep.is_wf());
}

#[test]
fn decode_tolerates_unknown_fields_and_order() {
    let body = br#"
        {"coord":{"lon":2.32,"lat":48.85},
         "name":"Paris",
         "wind":{"speed":3.6,"deg":210},
         "main":{"feels_like":20.9,"temp":21.34,"humidity":55,"pressure":1013.2},
         "weather":[{"id":800,"description":"clear sky","icon":"01d"}],
         "cod":200,"ok":true,"base":null}
    "#;
    let rep = decode_weather(body).unwrap();
    assert_eq!(rep.name, b"Paris".to_vec());
    assert_eq!(rep.temp, dec(false, 2134, 2));
}

#[test]
fn decode_missing_field_fails() {
    let no_name = br#"{"weather":[{"description":"clear sky"}],"main":{"temp":21.34,"humidity":55,"pressure":1013.2},"wind":{"speed":3.6}}"#;
    assert_eq!(decode_weather(no_name), Err(DecodeError::Shape));
    let no_humidity = br#"{"weather":[{"description":"clear sky"}],"main":{"temp":21.34,"pressure":1013.2},"wind":{"speed":3.6},"name":"Paris"}"#;
    assert_eq!(decode_weather(no_humidity), Err(DecodeError::Shape));
    let empty_weather = br#"{"weather":[],"main":{"temp":21.34,"humidity":55,"pressure":1013.2},"wind":{"speed":3.6},"name":"Paris"}"#;
    assert_eq!(decode_weather(empty_weather), Err(DecodeError::Shape));
    let wrong_kind = br#"{"weather":[{"description":7}],"main":{"temp":21.34,"humidity":55,"pressure":1013.2},"wind":{"speed":3.6},"name":"Paris"}"#;
    assert_eq!(decode_weather(wrong_kind), Err(DecodeError::Shape));
}

#[test]
fn decode_malformed_fails() {
    assert_eq!(decode_weather(b"not json"), Err(DecodeError::Syntax));
    assert_eq!(decode_weather(b"{"), Err(DecodeError::Syntax));
    assert_eq!(decode_weather(b""), Err(DecodeError::Syntax));
    assert_eq!(decode_weather(b"{}{}"), Err(DecodeError::Syntax));
    let exponent = br#"{"weather":[{"description":"clear sky"}],"main":{"temp":2.1e1,"humidity":55,"pressure":1013.2},"wind":{"speed":3.6},"name":"Paris"}"#;
    assert_eq!(decode_weather(exponent), Err(DecodeError::Syntax));
    let too_precise = br#"{"weather":[{"description":"clear sky"}],"main":{"temp":21.3456789,"humidity":55,"pressure":1013.2},"wind":{"speed":3.6},"name":"Paris"}"#;
    assert_eq!(decode_weather(too_precise), Err(DecodeError::Syntax));
    let huge = br#"{"weather":[{"description":"clear sky"}],"main":{"temp":99999999999999999,"humidity":55,"pressure":1013.2},"wind":{"speed":3.6},"name":"Paris"}"#;
    assert_eq!(decode_weather(huge), Err(DecodeError::Syntax));
    let leading_zero = br#"{"weather":[{"description":"clear sky"}],"main":{"temp":01,"humidity":55,"pressure":1013.2},"wind":{"speed":3.6},"name":"Paris"}"#;
    assert_eq!(decode_weather(leading_zero), Err(DecodeError::Syntax));
}

#[test]
fn decode_deep_nesting_fails() {
    let mut body: Vec<u8> = Vec::new();
    for _ in 0..300 {
        body.push(b'[');
    }
    for _ in 0..300 {
        body.push(b']');
    }
    assert_eq!(decode_weather(&body), Err(DecodeError::Syntax));
}

#[test]
fn decode_string_escapes() {
    let body = br#"{"weather":[{"description":"cl\near \"sky\""}],"main":{"temp":1,"humidity":2,"pressure":3},"wind":{"speed":4},"name":"Pa\\ris"}"#;
    let rep = decode_weather(body).unwrap();
    assert_eq!(rep.description, b"cl\near \"sky\"".to_vec());
    assert_eq!(rep.name, b"Pa\\ris".to_vec());
}

#[test]
fn decode_first_member_wins() {
    let body = br#"{"weather":[{"description":"mist"}],"main":{"temp":1,"humidity":2,"pressure":3},"wind":{"speed":4},"name":"A","name":"B"}"#;
    let rep = decode_weather(body).unwrap();
    assert_eq!(rep.name, b"A".to_vec());
}

#[test]
fn decode_error_texts() {
    assert_eq!(
        decode_error_text(&DecodeError::Syntax),
        b"malformed weather response".to_vec()
    );
    assert_eq!(
        decode_error_text(&DecodeError::Shape),
        b"unexpected shape of weather response".to_vec()
    );
}

#[test]
fn trim_and_lower() {
    assert_eq!(trim_ascii(b"  a b \t\r\n"), b"a b".to_vec());
    assert_eq!(trim_ascii(b"\n\t "), Vec::<u8>::new());
    assert_eq!(trim_ascii(b"x"), b"x".to_vec());
    assert_eq!(to_lower_ascii(b"AbC-Z"), b"abc-z".to_vec());
}

#[test]
fn continuation_answers() {
    assert!(wants_another(b"yes"));
    assert!(wants_another(b"  YES \n"));
    assert!(wants_another(b"Yes"));
    assert!(!wants_another(b"no"));
    assert!(!wants_another(b""));
    assert!(!wants_another(b"yeah"));
    assert!(!wants_another(b"yes please"));
    assert_eq!(next_state(b"yes\n"), DriverState::Prompting);
    assert_eq!(next_state(b"n"), DriverState::Done);
}

#[test]
fn url_exact() {
    let url = build_url(b"Paris", b"FR", b"k123");
    assert_eq!(
        String::from_utf8(url).unwrap(),
        "http://api.openweathermap.org/data/2.5/weather?q=Paris,FR&units=metric&appid=k123"
    );
}

#[test]
fn scenario_one_query_then_quit() {
    // one loop iteration: city and country entered, a report shown,
    // then "no" at the continuation prompt ends the loop
    let mut iterations = 0;
    let mut prompts = 0;
    let mut state = DriverState::Prompting;
    while state == DriverState::Prompting {
        iterations += 1;
        prompts += 1;
        let query = WeatherQuery::from_input(b" Paris \n", b"FR\n");
        assert_eq!(query.city, b"Paris".to_vec());
        assert_eq!(query.country_code, b"FR".to_vec());
        let url = query_url(&query, b"SECRET-REDACTED");
        assert!(String::from_utf8(url)
            .unwrap()
            .starts_with("http://api.openweathermap.org/data/2.5/weather?q=Paris,FR"));
        let outcome = match decode_weather(GOOD_BODY) {
            Ok(rep) => FetchOutcome::Success(rep),
            Err(e) => FetchOutcome::Failure(decode_error_text(&e)),
        };
        match present_outcome(&outcome) {
            StepOutput::Display(text, color) => {
                assert!(String::from_utf8(text).unwrap().contains("Paris"));
                assert_eq!(color, Color::BrightYellow);
            }
            StepOutput::ReportError(_) => panic!("expected a report"),
        }
        state = next_state(b"no\n");
    }
    assert_eq!(iterations, 1);
    assert_eq!(prompts, 1);
    assert_eq!(state, DriverState::Done);
}

#[test]
fn scenario_error_then_prompt_again() {
    // a failing query prints an error line and the loop prompts again
    let outcome = FetchOutcome::Failure(b"HTTP error 404".to_vec());
    match present_outcome(&outcome) {
        StepOutput::ReportError(msg) => assert_eq!(msg, b"HTTP error 404".to_vec()),
        StepOutput::Display(_, _) => panic!("expected an error line"),
    }
    let state = next_state(b"yes");
    assert_eq!(state, DriverState::Prompting);
}
