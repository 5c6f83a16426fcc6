use serde_json::Value;
use usage_poll::json::Json;
use usage_poll::snapshot::UsageSnapshot;
use usage_poll::usage::{
    parse_usage, read_usage_response, usage_request, ShapeError, UsageError, UsageRequest,
};

const USER_AGENT: &str = "codex_cli_rs/0.99.0 (Linux; x86_64)";
const CLIENT_VERSION: &str = "0.99.0";

fn object(members: Vec<(&str, Value)>) -> Value {
    let mut map = serde_json::Map::new();
    for (name, member) in members {
        map.insert(name.to_string(), member);
    }
    Value::Object(map)
}

fn parse(value: &Value) -> Result<UsageSnapshot, ShapeError> {
    parse_usage(&Json::from_value(value))
}

fn share(utilization: u64) -> f64 {
    f64::from_bits(utilization)
}

fn header<'a>(request: &'a UsageRequest, name: &str) -> &'a str {
    for (n, value) in &request.headers {
        if n == name {
            return value;
        }
    }
    panic!("no header {name}")
}

#[test]
fn window_minutes_decides_the_bucket_over_key_position() {
    // `primary_window` is the five-hour lane's key, but the length says weekly.
    let value = object(vec![(
        "primary_window",
        object(vec![
            ("used_percent", Value::from(40.0)),
            ("window_minutes", Value::from(10_080)),
        ]),
    )]);
    let snapshot = parse(&value).expect("recognizable window");
    assert!(snapshot.five_hour.is_none());
    let seven_day = snapshot.seven_day.expect("window_minutes routed to weekly");
    assert!((share(seven_day.utilization) - 0.40).abs() < 1e-9);
}

#[test]
fn unrecognized_window_minutes_falls_back_to_key_lane() {
    let value = object(vec![(
        "secondary_window",
        object(vec![
            ("used_percent", Value::from(12.0)),
            ("window_minutes", Value::from(42)),
        ]),
    )]);
    let snapshot = parse(&value).expect("recognizable window");
    assert!(snapshot.five_hour.is_none());
    let seven_day = snapshot
        .seven_day
        .expect("falls back to the secondary lane");
    assert!((share(seven_day.utilization) - 0.12).abs() < 1e-9);
}

#[test]
fn out_of_range_or_non_finite_percent_is_rejected() {
    for bad in [-1.0, 100.5, f64::NAN, f64::INFINITY] {
        let value = object(vec![(
            "primary_window",
            object(vec![("used_percent", Value::from(bad))]),
        )]);
        let snapshot = parse(&value).expect("primary_window key is recognized");
        assert!(
            snapshot.five_hour.is_none(),
            "percent {bad} should have been rejected"
        );
    }
}

#[test]
fn additional_rate_limits_is_ignored() {
    let value = object(vec![
        (
            "primary_window",
            object(vec![("used_percent", Value::from(5.0))]),
        ),
        (
            "additional_rate_limits",
            Value::Array(vec![object(vec![
                ("kind", Value::from("something-shunt-does-not-model")),
                ("used_percent", Value::from(99.0)),
            ])]),
        ),
    ]);
    let snapshot = parse(&value).expect("recognizable window");
    let five_hour = snapshot.five_hour.expect("primary_window present");
    assert!((share(five_hour.utilization) - 0.05).abs() < 1e-9);
}

#[test]
fn unrecognizable_response_shape_is_an_error() {
    for value in [
        object(vec![("totally_unexpected", Value::from(true))]),
        Value::Array(vec![Value::from(1), Value::from(2), Value::from(3)]),
        Value::from("just a string"),
        object(vec![("rate_limit", Value::from("not an object"))]),
    ] {
        assert!(parse(&value).is_err(), "expected an error for {value:?}");
    }
}

#[test]
fn parses_epoch_and_rfc3339_resets() {
    let value = object(vec![
        (
            "primary_window",
            object(vec![
                ("used_percent", Value::from(10.0)),
                ("resets_at", Value::from(1_700_000_000u64)),
            ]),
        ),
        (
            "secondary_window",
            object(vec![
                ("used_percent", Value::from(20.0)),
                ("resets_at", Value::from("2026-07-14T17:30:00Z")),
            ]),
        ),
    ]);
    let snapshot = parse(&value).expect("recognizable windows");
    assert_eq!(snapshot.five_hour.unwrap().resets_at, Some(1_700_000_000));
    assert!(snapshot.seven_day.unwrap().resets_at.is_some());
    assert_eq!(snapshot.seven_day.unwrap().resets_at, Some(1_784_050_200));
}

#[test]
fn tolerates_alternate_field_names() {
    let value = object(vec![(
        "rate_limits",
        object(vec![
            (
                "five_hour_limit",
                object(vec![("used_percent", Value::from(25.0))]),
            ),
            (
                "weekly_limit",
                object(vec![("used_percent", Value::from(75.0))]),
            ),
        ]),
    )]);
    let snapshot = parse(&value).expect("alternate names recognized");
    assert!((share(snapshot.five_hour.unwrap().utilization) - 0.25).abs() < 1e-9);
    assert!((share(snapshot.seven_day.unwrap().utilization) - 0.75).abs() < 1e-9);
}

#[test]
fn fetch_usage_applies_wham_snapshot_and_sends_identity_headers() {
    let token = "imported-chatgpt-token";
    let request = usage_request(
        "http://127.0.0.1:4000",
        token,
        "acct-123",
        USER_AGENT,
        CLIENT_VERSION,
    );
    assert_eq!(request.url, "http://127.0.0.1:4000/wham/usage");
    assert_eq!(header(&request, "authorization"), format!("Bearer {token}"));
    assert_eq!(header(&request, "chatgpt-account-id"), "acct-123");
    assert_eq!(header(&request, "originator"), "codex_cli_rs");
    assert_eq!(header(&request, "user-agent"), USER_AGENT);
    assert_eq!(header(&request, "version"), CLIENT_VERSION);
    assert_eq!(request.headers.len(), 5);
    assert_eq!(request.timeout_seconds, 10);

    let body = r#"{
        "rate_limit": {
            "primary_window": {
                "used_percent": 33.0,
                "window_minutes": 300,
                "resets_at": "2026-07-14T17:30:00+00:00"
            },
            "secondary_window": {
                "used_percent": 88.0,
                "window_minutes": 10080
            }
        }
    }"#;
    let snapshot = read_usage_response(200, "200 OK", body).expect("usage fetch succeeds");
    let five_hour = snapshot.five_hour.expect("primary_window applied");
    assert!((share(five_hour.utilization) - 0.33).abs() < 1e-9);
    assert!(five_hour.resets_at.is_some());
    let seven_day = snapshot.seven_day.expect("secondary_window applied");
    assert!((share(seven_day.utilization) - 0.88).abs() < 1e-9);
    assert!(snapshot.seven_day_oi.is_none());
}

#[test]
fn fetch_usage_errors_on_non_success() {
    let error = read_usage_response(500, "500 Internal Server Error", "boom")
        .expect_err("a 500 must surface as an error");
    assert!(error.message().contains("500"), "got: {error:?}");
    assert_eq!(
        error.message(),
        "wham usage request failed (500 Internal Server Error): boom"
    );
}

#[test]
fn fetch_usage_errors_on_unrecognizable_body() {
    let error = read_usage_response(200, "200 OK", r#"{ "totally_unexpected": true }"#)
        .expect_err("an unrecognizable 200 body must still surface as an error");
    assert!(error.message().contains("wham"), "got: {error:?}");
}

#[test]
fn each_error_has_its_input() {
    assert!(matches!(
        read_usage_response(404, "404 Not Found", ""),
        Err(UsageError::Refused { .. })
    ));
    assert!(matches!(
        read_usage_response(300, "300 Multiple Choices", "{\"primary_window\":{}}"),
        Err(UsageError::Refused { .. })
    ));
    assert!(matches!(
        read_usage_response(199, "199 <unknown status code>", "{\"primary_window\":{}}"),
        Err(UsageError::Refused { .. })
    ));
    assert!(read_usage_response(299, "299 <unknown status code>", "{\"primary_window\":{}}").is_ok());

    let invalid = read_usage_response(200, "200 OK", "{").expect_err("half a document");
    assert!(matches!(invalid, UsageError::InvalidJson(_)));
    assert_eq!(
        invalid.message(),
        "invalid wham usage response: EOF while parsing an object at line 1 column 1"
    );

    let scalar = read_usage_response(200, "200 OK", "[1]").expect_err("an array");
    assert!(matches!(scalar, UsageError::Shape(ShapeError::NotAnObject)));
    assert_eq!(scalar.message(), "wham usage response is not a JSON object");

    let bare = read_usage_response(200, "200 OK", "{}").expect_err("no windows");
    assert!(matches!(bare, UsageError::Shape(ShapeError::NoWindow)));
    assert_eq!(
        bare.message(),
        "wham usage response carries no recognizable rate-limit window"
    );
}

#[test]
fn a_refusal_quotes_two_hundred_characters() {
    let body = "\u{e9}".repeat(201);
    match read_usage_response(502, "502 Bad Gateway", &body) {
        Err(UsageError::Refused { status, detail }) => {
            assert_eq!(status, "502 Bad Gateway");
            assert_eq!(detail, "\u{e9}".repeat(200));
        }
        other => panic!("got: {other:?}"),
    }
}

#[test]
fn the_url_has_one_slash_at_the_seam() {
    let url = |base: &str| usage_poll::usage::usage_url(base);
    assert_eq!(
        url("https://chatgpt.com/backend-api"),
        "https://chatgpt.com/backend-api/wham/usage"
    );
    assert_eq!(
        url("https://chatgpt.com/backend-api///"),
        "https://chatgpt.com/backend-api/wham/usage"
    );
    assert_eq!(url("///"), "/wham/usage");
    assert_eq!(url(""), "/wham/usage");
}

#[test]
fn the_secondary_lane_wins_a_shared_bucket() {
    let text = r#"{
        "primary_window": { "used_percent": 10, "window_minutes": 10080, "resets_at": 1 },
        "secondary_window": { "used_percent": 20, "resets_at": 2 }
    }"#;
    let snapshot = parse_usage(&Json::from_text(text).unwrap()).unwrap();
    assert!(snapshot.five_hour.is_none());
    let seven_day = snapshot.seven_day.unwrap();
    assert_eq!(seven_day.utilization, 0.2f64.to_bits());
    assert_eq!(seven_day.resets_at, Some(2));

    // An unreadable secondary window leaves the bucket to the primary one.
    let text = r#"{
        "primary_window": { "used_percent": 10, "window_minutes": 10080, "resets_at": 1 },
        "secondary_window": { "used_percent": "20" }
    }"#;
    let snapshot = parse_usage(&Json::from_text(text).unwrap()).unwrap();
    assert_eq!(snapshot.seven_day.unwrap().utilization, 0.1f64.to_bits());
}

#[test]
fn the_first_of_two_names_counts() {
    let text = r#"{
        "rate_limit": {
            "primary_window": { "used_percent": 1 },
            "five_hour_limit": { "used_percent": 2 }
        },
        "rate_limits": { "weekly_limit": { "used_percent": 3 } }
    }"#;
    let snapshot = parse_usage(&Json::from_text(text).unwrap()).unwrap();
    assert_eq!(snapshot.five_hour.unwrap().utilization, 0.01f64.to_bits());
    assert!(snapshot.seven_day.is_none());
}

#[test]
fn a_present_but_unusable_window_is_an_empty_report() {
    for text in [
        r#"{"primary_window": {}}"#,
        r#"{"primary_window": null}"#,
        r#"{"weekly_limit": {"used_percent": -0.1}}"#,
        r#"{"weekly_limit": {"used_percent": 101}}"#,
        r#"{"weekly_limit": {"used_percent": -3}}"#,
        r#"{"weekly_limit": {"used_percent": 18446744073709551615}}"#,
    ] {
        let snapshot = parse_usage(&Json::from_text(text).unwrap()).expect("recognizable");
        assert!(snapshot.is_empty(), "{text}");
    }
}

#[test]
fn resets_of_other_shapes_are_dropped() {
    for reset in ["-5", "1.5", "null", "\"soon\"", "[1]", "\"2026-13-01T00:00:00Z\""] {
        let text = format!("{{\"primary_window\": {{\"used_percent\": 50, \"resets_at\": {reset}}}}}");
        let snapshot = parse_usage(&Json::from_text(&text).unwrap()).unwrap();
        let window = snapshot.five_hour.unwrap();
        assert_eq!(window.resets_at, None, "{reset}");
        assert_eq!(window.utilization, 0.5f64.to_bits());
    }
}

#[test]
fn other_members_of_the_container_are_ignored() {
    let plain = r#"{"rate_limit": {"primary_window": {"used_percent": 7.25}}}"#;
    let extended = r#"{
        "plan": "pro",
        "rate_limits": {"weekly_limit": {"used_percent": 1}},
        "rate_limit": {"limit_reached": false, "primary_window": {"used_percent": 7.25, "note": []}}
    }"#;
    let read = |text: &str| parse_usage(&Json::from_text(text).unwrap()).unwrap();
    assert_eq!(read(plain), read(extended));
    assert_eq!(read(plain).five_hour.unwrap().utilization, (7.25f64 / 100.0).to_bits());
}
