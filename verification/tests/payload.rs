use base64::Engine;
use stream_operator::data::{
    email_record, event, event_count_fits, event_from_ids, test_data_json, EVENT_PREFIX,
    EVENT_SUFFIX,
};

fn ids(list: &[&str]) -> Vec<String> {
    list.iter().map(|s| s.to_string()).collect()
}

fn cx_value(payload: &str) -> &str {
    assert!(payload.starts_with(EVENT_PREFIX));
    assert!(payload.ends_with(EVENT_SUFFIX));
    &payload[EVENT_PREFIX.len()..payload.len() - EVENT_SUFFIX.len()]
}

#[test]
fn template_is_the_snowplow_page_view() {
    assert!(EVENT_PREFIX.starts_with(
        r#"{"schema":"iglu:com.snowplowanalytics.snowplow/payload_data/jsonschema/1-0-4","data":[{"e":"pv","#
    ));
    assert!(EVENT_PREFIX.ends_with(r#""dtm":"1626182778191","cx":"#));
    assert!(EVENT_SUFFIX.starts_with(r#","vp":"863x1299""#));
    assert!(EVENT_SUFFIX.ends_with(r#""stm":"1626182778194"}]}"#));
}

#[test]
fn record_of_a_plain_id() {
    assert_eq!(email_record("abc"), r#"{"id":"abc"}"#);
}

#[test]
fn record_escapes_quotes_and_backslashes() {
    assert_eq!(email_record("a\"b"), r#"{"id":"a\"b"}"#);
    assert_eq!(email_record("a\\b"), r#"{"id":"a\\b"}"#);
    assert_eq!(email_record("a\nb"), r#"{"id":"a\nb"}"#);
    assert_eq!(email_record("a\tb\r"), r#"{"id":"a\tb\r"}"#);
    assert_eq!(email_record("a\u{1}b\u{1f}"), r#"{"id":"a\u0001b\u001f"}"#);
    assert_eq!(email_record("é/\u{7f}"), "{\"id\":\"é/\u{7f}\"}");
}

#[test]
fn payload_of_one_id() {
    let payload = event_from_ids(&ids(&["abc"])).unwrap();
    assert_eq!(payload, format!("{}eyJpZCI6ImFiYyJ9{}", EVENT_PREFIX, EVENT_SUFFIX));
}

#[test]
fn payload_of_two_ids_concatenates_records() {
    let payload = event_from_ids(&ids(&["abc", "XYZ12"])).unwrap();
    assert_eq!(cx_value(&payload), "eyJpZCI6ImFiYyJ9eyJpZCI6IlhZWjEyIn0=");
}

#[test]
fn payload_with_escaped_id() {
    let payload = event_from_ids(&ids(&["a\"b"])).unwrap();
    assert_eq!(cx_value(&payload), "eyJpZCI6ImFcImIifQ==");
}

#[test]
fn payload_of_no_ids_has_an_empty_cx() {
    let payload = event_from_ids(&Vec::new()).unwrap();
    assert_eq!(payload, format!("{}{}", EVENT_PREFIX, EVENT_SUFFIX));
    assert_eq!(event(0), payload);
}

#[test]
fn generated_event_carries_count_fake_records() {
    for count in [1usize, 3, 10] {
        let payload = event(count);
        let bytes = base64::engine::general_purpose::STANDARD
            .decode(cx_value(&payload))
            .unwrap();
        let records = String::from_utf8(bytes).unwrap();
        let parts: Vec<&str> = records
            .strip_prefix("{\"id\":\"")
            .unwrap()
            .strip_suffix("\"}")
            .unwrap()
            .split("\"}{\"id\":\"")
            .collect();
        assert_eq!(parts.len(), count);
        for id in parts {
            assert!(id.len() >= 5 && id.len() < 20, "{}", id);
            assert!(id.chars().all(|c| c.is_ascii_alphanumeric()), "{}", id);
        }
    }
}

#[test]
fn count_bound() {
    assert!(event_count_fits(0));
    assert!(event_count_fits(1_000_000));
    assert!(!event_count_fits(usize::MAX));
    assert!(!event_count_fits(usize::MAX / 28 + 1));
}

#[test]
fn pulsar_body() {
    assert_eq!(test_data_json("x"), r#"{"data":"x"}"#);
    assert_eq!(test_data_json("data"), r#"{"data":"data"}"#);
    assert_eq!(test_data_json("x\"y"), r#"{"data":"x\"y"}"#);
}

#[test]
fn cx_value_is_padded_base64() {
    let empty = event(0);
    for count in [1usize, 2, 5] {
        let payload = event(count);
        assert!(payload.len() >= empty.len());
        let m = cx_value(&payload);
        assert_eq!(m.len() % 4, 0);
        let body = m.trim_end_matches('=');
        assert!(m.len() - body.len() <= 2);
        assert!(body
            .chars()
            .all(|c| c.is_ascii_alphanumeric() || c == '+' || c == '/'));
    }
}
