use usage_poll::binary64::divide_by_hundred;
use usage_poll::json::{Json, JsonNumber};
use usage_poll::rfc3339::parse_rfc3339_to_epoch_secs;
use usage_poll::snapshot::{codex_window_bucket, CodexWindow};
use usage_poll::usage::parse_percent;

fn share(percent: f64) -> Option<u64> {
    parse_percent(JsonNumber::Float(percent.to_bits()))
}

#[test]
fn a_share_is_the_quotient_by_a_hundred() {
    for percent in [
        0.0, -0.0, 1.0, 12.0, 18.0, 33.0, 40.0, 64.0, 66.6, 75.0, 88.0, 99.99, 100.0, 0.1, 1e-10,
        1e-300, 2.2250738585072014e-308, 2.2250738585072011e-306, 5e-324, 2.5e-322, 7.4e-322,
        1.5e-321, 1e-320, 3.0000000000000004, 6.25, 50.0,
    ] {
        assert_eq!(share(percent), Some((percent / 100.0f64).to_bits()), "{percent}");
    }
    for percent in [
        -1.0, 100.5, 100.00000000000001, -5e-324, f64::NAN, f64::INFINITY, f64::NEG_INFINITY,
        f64::MAX,
    ] {
        assert_eq!(share(percent), None, "{percent}");
    }
}

#[test]
fn shares_agree_with_the_processor_on_many_patterns() {
    let mut seed = 0x9e37_79b9_7f4a_7c15u64;
    let mut tried = 0;
    while tried < 200_000 {
        seed = seed.wrapping_mul(6364136223846793005).wrapping_add(1442695040888963407);
        let bits = (seed >> 1) % 0x4059_0000_0000_0001;
        let value = f64::from_bits(bits);
        assert_eq!(share(value), Some((value / 100.0).to_bits()), "{bits:#x}");
        // Values of the size that an endpoint reports.
        let near = ((seed >> 11) as f64) / 9007199254740992.0 * 100.0;
        assert_eq!(share(near), Some((near / 100.0).to_bits()), "{near}");
        // Subnormal values, where quotients tie.
        let small = f64::from_bits(seed >> 48);
        assert_eq!(share(small), Some((small / 100.0).to_bits()), "{small:e}");
        tried += 1;
    }
}

#[test]
fn whole_percentages_are_shares_too() {
    for n in 0..=100u64 {
        assert_eq!(
            parse_percent(JsonNumber::PosInt(n)),
            Some((n as f64 / 100.0).to_bits())
        );
    }
    assert_eq!(parse_percent(JsonNumber::PosInt(101)), None);
    assert_eq!(parse_percent(JsonNumber::PosInt(u64::MAX)), None);
    assert_eq!(parse_percent(JsonNumber::NegInt(-1)), None);
}

#[test]
fn division_covers_the_widest_operands() {
    let m = 0x1f_ffff_ffff_ffff;
    let value = m as f64;
    assert_eq!(divide_by_hundred(m, 1074), (value / 100.0).to_bits());
    assert_eq!(divide_by_hundred(0, 1074), 0);
    assert_eq!(divide_by_hundred(49, 0), 0);
    assert_eq!(divide_by_hundred(50, 0), 0);
    assert_eq!(divide_by_hundred(51, 0), 1);
    assert_eq!(divide_by_hundred(150, 0), 2);
    assert_eq!(divide_by_hundred(250, 0), 2);
}

#[test]
fn known_lengths_are_buckets() {
    assert_eq!(codex_window_bucket(300), Some(CodexWindow::FiveHour));
    assert_eq!(codex_window_bucket(10_080), Some(CodexWindow::Weekly));
    for minutes in [0, 42, 299, 301, -300, i64::MAX] {
        assert_eq!(codex_window_bucket(minutes), None);
    }
}

#[test]
fn timestamps_are_seconds_since_the_epoch() {
    for (text, seconds) in [
        ("1970-01-01T00:00:00Z", 0),
        ("1970-01-01T00:00:01.999999Z", 1),
        ("1969-12-31T23:00:00-02:00", 3600),
        ("2000-03-01T00:00:00Z", 951_868_800),
        ("2024-02-29T23:59:59Z", 1_709_251_199),
        ("2026-07-14T17:30:00Z", 1_784_050_200),
        ("2026-07-14t17:30:00z", 1_784_050_200),
        ("2026-07-14T17:30:00+00:00", 1_784_050_200),
        ("2026-07-14T17:30:00-00:00", 1_784_050_200),
        ("2026-07-14T17:30:00+05:30", 1_784_030_400),
        ("2026-09-01T00:00:00Z", 1_788_220_800),
        ("2016-12-31T23:59:60Z", 1_483_228_800),
        ("9999-12-31T23:59:59Z", 253_402_300_799),
    ] {
        assert_eq!(parse_rfc3339_to_epoch_secs(text), Some(seconds), "{text}");
    }
}

#[test]
fn other_texts_are_no_timestamps() {
    for text in [
        "",
        "2026-07-14",
        "2026-07-14T17:30:00",
        "2026-07-14 17:30:00Z",
        "2026-07-14T17:30Z",
        "2026-07-14T17:30:00.Z",
        "2026-07-14T17:30:00Zulu",
        "2026-07-14T17:30:00+0530",
        "2026-07-14T17:30:00+24:00",
        "2026-07-14T17:30:00+05:60",
        "2026-07-14T24:00:00Z",
        "2026-07-14T17:60:00Z",
        "2026-07-14T17:30:61Z",
        "2026-00-14T17:30:00Z",
        "2026-13-14T17:30:00Z",
        "2026-07-00T17:30:00Z",
        "2026-06-31T17:30:00Z",
        "2026-02-29T17:30:00Z",
        "1900-02-29T17:30:00Z",
        "+026-07-14T17:30:00Z",
        "\u{0662}026-07-14T17:30:00Z",
        "1969-12-31T23:59:59Z",
        "0000-01-01T00:00:00Z",
        "1970-01-01T00:00:00+00:01",
    ] {
        assert_eq!(parse_rfc3339_to_epoch_secs(text), None, "{text}");
    }
}

#[test]
fn numbers_keep_their_shape() {
    let number = |text: &str| match Json::from_text(text) {
        Ok(Json::Number(n)) => n,
        other => panic!("got: {other:?}"),
    };
    assert_eq!(number("7"), JsonNumber::PosInt(7));
    assert_eq!(number("18446744073709551615"), JsonNumber::PosInt(u64::MAX));
    assert_eq!(number("-7"), JsonNumber::NegInt(-7));
    assert_eq!(number("7.5"), JsonNumber::Float(7.5f64.to_bits()));
    assert_eq!(number("1e2"), JsonNumber::Float(100f64.to_bits()));
    assert_eq!(number("-0.0"), JsonNumber::Float((-0.0f64).to_bits()));
}

#[test]
fn documents_are_read_member_by_member() {
    let json = Json::from_bytes(br#"{"a": [null, true, "x"], "b": -2, "a2": {"c": 9007199254740993}}"#)
        .expect("a document");
    assert!(json.is_object());
    assert!(json.get("c").is_none());
    assert_eq!(json.get("b").unwrap().as_i64(), Some(-2));
    assert_eq!(json.get("b").unwrap().as_u64(), None);
    assert_eq!(
        json.get("a2").unwrap().get("c").unwrap().as_u64(),
        Some(9_007_199_254_740_993)
    );
    match json.get("a").unwrap() {
        Json::Array(items) => {
            assert_eq!(items.len(), 3);
            assert!(matches!(items[0], Json::Null));
            assert!(matches!(items[1], Json::Bool(true)));
            assert_eq!(items[2].as_str(), Some("x"));
            assert!(items[2].get("x").is_none());
        }
        other => panic!("got: {other:?}"),
    }
    assert!(Json::from_bytes(b"{\"a\": 1").is_none());
    assert!(Json::from_bytes(&[0xff, 0xfe]).is_none());
    assert!(Json::from_text("1 2").is_err());

    // A repeated name: the later member counts, parsed or built by hand.
    let parsed = Json::from_text(r#"{"k": 1, "k": 2}"#).unwrap();
    assert_eq!(parsed.get("k").unwrap().as_u64(), Some(2));
    let built = Json::Object(vec![
        ("k".to_string(), Json::Number(JsonNumber::PosInt(1))),
        ("k".to_string(), Json::Number(JsonNumber::PosInt(2))),
    ]);
    assert_eq!(built.get("k").unwrap().as_u64(), Some(2));
    let big = Json::Number(JsonNumber::PosInt(u64::MAX));
    assert_eq!(big.as_i64(), None);
    assert_eq!(big.as_u64(), Some(u64::MAX));
}
