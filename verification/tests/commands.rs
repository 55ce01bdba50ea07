//! The payload grammar and the field-wise merge.

use rover::command::{DriveState, RxMessage};
use rover::parse::parse_message;
use rover::units::{Angle, Power, Turn};

fn parse(bytes: &[u8]) -> Option<RxMessage> {
    parse_message(&bytes.to_vec())
}

#[test]
fn parses_power_only() {
    let msg = parse(b"{\"p\":0.5}").unwrap();
    assert_eq!(msg.p, Some(Power::new(500)));
    assert_eq!(msg.th, None);
    assert_eq!(msg.tu, None);
}

#[test]
fn parses_full_object_with_blanks() {
    let msg = parse(b" { \"th\" : 1.57 ,\t\"tu\" : -0.25 ,\r\n \"p\" : 1 } ").unwrap();
    assert_eq!(msg.p, Some(Power::new(1000)));
    assert_eq!(msg.th, Some(Angle::new(1570)));
    assert_eq!(msg.tu, Some(Turn::new(-250)));
}

#[test]
fn empty_object_requests_nothing() {
    let msg = parse(b"{}").unwrap();
    assert_eq!(msg, RxMessage { p: None, th: None, tu: None });
    let msg = parse(b"  {   }  ").unwrap();
    assert!(!msg.any_present());
}

#[test]
fn rejects_non_number_value() {
    assert_eq!(parse(b"{\"p\": \"not-a-number\"}"), None);
}

#[test]
fn rejects_malformed_shapes() {
    assert_eq!(parse(b""), None);
    assert_eq!(parse(b"null"), None);
    assert_eq!(parse(b"{\"p\":}"), None);
    assert_eq!(parse(b"{\"p\":0.5"), None);
    assert_eq!(parse(b"{\"p\":0.5}}"), None);
    assert_eq!(parse(b"{\"p\":0.5,}"), None);
    assert_eq!(parse(b"{\"q\":0.5}"), None);
    assert_eq!(parse(b"{\"p\":0.5,\"p\":0.7}"), None);
    assert_eq!(parse(b"{\"p\":1e3}"), None);
    assert_eq!(parse(b"{\"p\":.5}"), None);
    assert_eq!(parse(b"{\"p\":-}"), None);
    assert_eq!(parse(b"{\"p\":12345678}"), None);
}

#[test]
fn seven_integer_digits_are_the_limit() {
    let msg = parse(b"{\"th\":9999999}").unwrap();
    assert_eq!(msg.th.unwrap().millis(), 9_999_999_000);
    let msg = parse(b"{\"th\":-9999999.999}").unwrap();
    assert_eq!(msg.th.unwrap().millis(), -9_999_999_999);
    assert_eq!(parse(b"{\"th\":10000000}"), None);
}

#[test]
fn clamps_into_the_normalized_range() {
    let msg = parse(b"{\"p\":2.5,\"tu\":-7}").unwrap();
    assert_eq!(msg.p.unwrap().millis(), 1000);
    assert_eq!(msg.tu.unwrap().millis(), -1000);
}

#[test]
fn truncates_fraction_beyond_thousandths() {
    let msg = parse(b"{\"th\":0.12345}").unwrap();
    assert_eq!(msg.th.unwrap().millis(), 123);
    let msg = parse(b"{\"th\":-2.0009}").unwrap();
    assert_eq!(msg.th.unwrap().millis(), -2000);
}

#[test]
fn matches_reference_json_parser() {
    // On plain decimal commands the grammar agrees with a full
    // reference parser of the notation, value for value in
    // thousandths.
    let inputs: [&[u8]; 4] = [
        b"{\"p\":0.5}",
        b"{\"th\":1.57,\"tu\":0.25}",
        b"{\"p\":-0.125,\"th\":3,\"tu\":-1}",
        b"{ }",
    ];
    for input in inputs {
        let mine = parse(input).unwrap();
        let reference: serde_json::Value = serde_json::from_slice(input).unwrap();
        let field = |key: &str| -> Option<i64> {
            reference.get(key).map(|v| (v.as_f64().unwrap() * 1000.0).round() as i64)
        };
        assert_eq!(mine.p.map(|v| v.millis()), field("p"));
        assert_eq!(mine.th.map(|v| v.millis()), field("th"));
        assert_eq!(mine.tu.map(|v| v.millis()), field("tu"));
    }
}

#[test]
fn merge_overwrites_present_preserves_absent() {
    let mut state = DriveState::neutral();
    let first = RxMessage { p: Some(Power::new(500)), th: None, tu: None };
    assert!(state.merge(&first));
    assert_eq!(state.power.millis(), 500);
    assert_eq!(state.heading.millis(), 0);
    assert_eq!(state.turn.millis(), 0);

    let second = RxMessage { p: None, th: Some(Angle::new(1570)), tu: None };
    assert!(state.merge(&second));
    assert_eq!(state.power.millis(), 500);
    assert_eq!(state.heading.millis(), 1570);
    assert_eq!(state.turn.millis(), 0);
}

#[test]
fn merge_of_empty_message_changes_nothing() {
    let mut state = DriveState::neutral();
    let before = state;
    assert!(!state.merge(&RxMessage::empty()));
    assert_eq!(state, before);
}

#[test]
fn merge_twice_equals_once() {
    let msg = RxMessage {
        p: Some(Power::new(-250)),
        th: None,
        tu: Some(Turn::new(750)),
    };
    let mut once = DriveState::neutral();
    once.merge(&msg);
    let mut twice = once;
    twice.merge(&msg);
    assert_eq!(once, twice);
}
